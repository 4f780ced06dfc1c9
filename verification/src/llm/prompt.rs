//! Validation and assembly of the text handed to the language model.
use vstd::prelude::*;
use crate::errors::AppError;
use crate::text::{all_ws, byte_len, chars_of, is_blank, utf8_len};

verus! {

/// Longest prompt accepted, in UTF-8 bytes.
pub const MAX_PROMPT_BYTES: usize = 8000;

/// Prompt builder for LLM requests.
pub struct Prompt;

impl Prompt {
    /// Validates the prompt and prefixes it with the context, if any.
    ///
    /// A prompt that is empty or all whitespace is refused, and so is one
    /// longer than 8000 bytes; a context that is empty or all whitespace is
    /// ignored, any other is put before the prompt, separated by a blank line.
    pub fn build(prompt_text: &str, context: Option<&str>) -> (r: Result<String, AppError>)
        ensures
            all_ws(prompt_text@) ==> (r matches Err(AppError::InvalidInput(m)) && m@
                == "Prompt cannot be empty."@),
            !all_ws(prompt_text@) && utf8_len(prompt_text@) > MAX_PROMPT_BYTES ==> (r matches Err(
                AppError::InvalidInput(m),
            ) && m@ == "Prompt exceeds maximum allowed length."@),
            !all_ws(prompt_text@) && utf8_len(prompt_text@) <= MAX_PROMPT_BYTES ==> (r matches Ok(
                s,
            ) && s@ == match context {
                Some(ctx) => if all_ws(ctx@) {
                    prompt_text@
                } else {
                    ctx@ + "\n\n"@ + prompt_text@
                },
                None => prompt_text@,
            }),
    {
        let p = chars_of(prompt_text);
        if is_blank(&p) {
            return Err(AppError::InvalidInput("Prompt cannot be empty.".to_string()));
        }
        if byte_len(prompt_text) > MAX_PROMPT_BYTES {
            return Err(AppError::InvalidInput("Prompt exceeds maximum allowed length.".to_string()));
        }
        let mut full = String::new();
        match context {
            Some(ctx) => {
                let c = chars_of(ctx);
                if !is_blank(&c) {
                    full.append(ctx);
                    full.append("\n\n");
                }
            },
            None => {},
        }
        full.append(prompt_text);
        Ok(full)
    }
}

} // verus!
