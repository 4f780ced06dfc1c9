# fintally

The verified core of a personal-finance server with a local chatbot:
the rules of its HTTP API, the chat turn between model, tools and user,
tool-call validation, document chunking and retrieval for the knowledge
base, and the choice and provisioning of the local language model.

- `src/` is the library, written in Verus: every function carries a
  contract that Verus proves. Calls into outside crates go through a small
  number of trusted wrappers whose contracts state what those crates do.
- `app/` is the server around it: HTTP routes, the database, model
  inference and the OCR engine, which call the library for every decision.
- `tests/` runs the library on concrete inputs.
