//! The chatbot's conversation turn: prompt assembly, reading the model's
//! JSON replies, and the decisions between model, tools and user.
use vstd::prelude::*;
use crate::chat::context::{format_context_for_prompt, framed_context};
use crate::errors::AppError;
use crate::llm::prompt::{Prompt, MAX_PROMPT_BYTES};
use crate::llm::tools::{join_strings, strings_view};
use crate::text::{
    all_ws, byte_len, chars_of, ends_with, has_prefix, has_suffix, is_blank, join, lit, slice_chars,
    starts_with, string_from_chars, trim, trimmed, utf8_len,
};

verus! {

/// The fixed part of the assistant's system prompt: persona, output format
/// and tool list.
pub const SYSTEM_RULES: &'static str = r#"You are FinTally, a warm, intelligent, and highly supportive AI personal finance assistant for Indian users.

TONE & PERSONALITY GUIDELINES:
1. HUMAN-LIKE & EMPATHETIC: Speak naturally, like a knowledgeable financial advisor or friend. Avoid sounding robotic, dry, or overly formal.
2. CONTEXTUALLY AWARE: Frame amounts in Indian Rupees (₹) using standard Indian numbering terms (e.g., Lakhs, Crores) when discussing figures.
3. HELPFUL & DIRECT: Answer general financial questions, book recommendations, concept explanations, or general advice DIRECTLY without asking for numerical parameters.

OUTPUT FORMAT INSTRUCTIONS:
You MUST ALWAYS output strict JSON adhering to one of the two structures below:

Structure A - When calling a calculation tool:
{
  "thought": "Brief explanation of why this tool is selected",
  "tool_call": {
    "tool": "calculate_emi",
    "args": {
      "principal": 500000,
      "annual_rate": 8.5,
      "tenure_months": 36
    }
  },
  "conversational_response": null
}

Structure B - When answering directly without a tool:
{
  "thought": "Brief reasoning",
  "tool_call": null,
  "conversational_response": "Your full plain string response here."
}

CRITICAL SYSTEM RULES:
1. MANDATORY TOOL EXECUTION: Whenever the user asks to calculate EMI, budget, emergency fund, or tax, you MUST populate `tool_call` with the tool name and arguments. Do NOT calculate manually in `thought`.
2. NEVER LEAVE BOTH NULL: You must either provide a valid `tool_call` OR a non-null `conversational_response`.
3. CONTEXT SYNTHESIS: Read the ENTIRE chat history and attached OCR documents to collect missing parameters gracefully.
4. ANNUAL TO MONTHLY CONVERSION: Divide annual amounts by 12 automatically where appropriate.
5. STRICT ENUM VALUES: You MUST use exact string enum values specified below for tool calls.
6. MATHEMATICAL FORMULA FORMATTING: Wrap inline variables with $P$,$r$,$n$and standalone equations with$$. Never use raw LaTeX bracket delimiters.
7. CREATOR KNOWLEDGE: Speak warmly about Anshu Gondi if asked about creator/developer identity.

AVAILABLE TOOLS & REQUIRED ARGUMENTS:
- `generate_budget`: `monthly_income` (number, required), `profile` ("single_parent", "retiree_income_focused", "young_professional", "family_with_dependents")
- `calculate_emi`: `principal` (number), `annual_rate` (number), `tenure_months` (integer)
- `assess_loan`: `request` (object), `policy` ("salaried" or "self_employed")
- `emergency_fund`: `monthly_expense` (number)
- `calculate_tax`: `amount` (number), `profile` ("salaried" or "self_employed")
"#;

/// The system prompt used when a tool result is explained to the user.
pub const EXPLAIN_SYSTEM: &'static str = "You are FinTally, an encouraging and empathetic AI personal finance assistant for Indian users. Explain calculation results warmly, conversationally, and clearly in Indian Rupees (\u{20b9}). Highlight actionable insights or practical financial advice based on the numbers calculated, and keep it easy to read.";

/// A message of the conversation so far.
pub struct ChatMessage {
    pub role: String,
    pub content: String,
}

/// Text with surrounding whitespace and one Markdown code fence removed.
pub open spec fn strip_markdown_spec(s: Seq<char>) -> Seq<char> {
    let t = trim(s);
    let t1 = if starts_with(t, "```json"@) {
        t.skip(7)
    } else if starts_with(t, "```"@) {
        t.skip(3)
    } else {
        t
    };
    let t2 = if ends_with(t1, "```"@) {
        t1.take(t1.len() - 3)
    } else {
        t1
    };
    trim(t2)
}

/// Removes surrounding whitespace and a Markdown code fence (```` ```json ````
/// or ```` ``` ```` before, ```` ``` ```` after) from a model reply.
pub fn strip_markdown(text: &str) -> (r: String)
    ensures
        r@ == strip_markdown_spec(text@),
{
    proof {
        reveal_strlit("```json");
        reveal_strlit("```");
    }
    let t = trimmed(&chars_of(text));
    let fence_json = lit("```json");
    let fence = lit("```");
    let t1 = if has_prefix(&t, &fence_json) {
        slice_chars(&t, 7, t.len())
    } else if has_prefix(&t, &fence) {
        slice_chars(&t, 3, t.len())
    } else {
        slice_chars(&t, 0, t.len())
    };
    assert(t@.subrange(0, t@.len() as int) =~= t@);
    assert(t@.subrange(7, t@.len() as int) =~= t@.skip(7));
    assert(t@.subrange(3, t@.len() as int) =~= t@.skip(3));
    let t2 = if has_suffix(&t1, &fence) {
        slice_chars(&t1, 0, t1.len() - 3)
    } else {
        slice_chars(&t1, 0, t1.len())
    };
    assert(t1@.subrange(0, t1@.len() as int) =~= t1@);
    let r = trimmed(&t2);
    string_from_chars(r.as_slice())
}

/// The `conversational_response` of a reply as the typed reading gives it.
pub enum ConversationalContent {
    Text(String),
    List(Vec<String>),
    Structured { content: Vec<String> },
}

/// A tool call requested by the model: the tool's name and its arguments as
/// compact JSON text.
pub struct ToolCallPayload {
    pub tool: String,
    pub args: String,
}

/// The typed reading of a model reply.
pub struct NativeLlmResponse {
    pub thought: Option<String>,
    pub tool_call: Option<ToolCallPayload>,
    pub conversational_response: Option<ConversationalContent>,
}

/// The `conversational_response` field as the untyped JSON reading sees it:
/// a string, the strings of an array (or of a `content` array), or nothing
/// usable.
pub enum LooseConversational {
    Nothing,
    Text(String),
    Items(Vec<String>),
}

/// The untyped JSON reading of a model reply; `thought` is present only
/// when it is a string.
pub struct LooseReply {
    pub conversational: LooseConversational,
    pub thought: Option<String>,
}

pub open spec fn opt_text(o: Option<String>) -> Option<Seq<char>> {
    match o {
        Some(s) => Some(s@),
        None => None,
    }
}

/// A text, unless it is blank.
pub open spec fn nonblank(o: Option<Seq<char>>) -> Option<Seq<char>> {
    match o {
        Some(t) => if all_ws(t) {
            None
        } else {
            Some(t)
        },
        None => None,
    }
}

pub open spec fn first_of(a: Option<Seq<char>>, b: Option<Seq<char>>) -> Option<Seq<char>> {
    if a is Some {
        a
    } else {
        b
    }
}

pub open spec fn content_text(c: ConversationalContent) -> Seq<char> {
    match c {
        ConversationalContent::Text(t) => t@,
        ConversationalContent::List(l) => join(strings_view(l@), "\n"@),
        ConversationalContent::Structured { content } => join(strings_view(content@), "\n"@),
    }
}

/// What the typed reading offers as text: the conversational response,
/// else the thought, each only when not blank.
pub open spec fn typed_pick(p: NativeLlmResponse) -> Option<Seq<char>> {
    first_of(
        nonblank(
            match p.conversational_response {
                Some(c) => Some(content_text(c)),
                None => None,
            },
        ),
        nonblank(opt_text(p.thought)),
    )
}

/// What the untyped reading offers as text, in the same order.
pub open spec fn loose_pick(l: LooseReply) -> Option<Seq<char>> {
    first_of(
        nonblank(
            match l.conversational {
                LooseConversational::Nothing => None,
                LooseConversational::Text(t) => Some(t@),
                LooseConversational::Items(v) => Some(join(strings_view(v@), "\n"@)),
            },
        ),
        nonblank(opt_text(l.thought)),
    )
}

pub open spec fn unformatted_reply_text() -> Seq<char> {
    "I processed your request, but could not format the output. Could you try asking your question again?"@
}

/// The text shown to the user for a reply whose cleaned form is `cleaned`.
pub open spec fn conversational_text(
    cleaned: Seq<char>,
    typed: Option<NativeLlmResponse>,
    loose: Option<LooseReply>,
) -> Seq<char> {
    let a = match typed {
        Some(p) => typed_pick(p),
        None => None,
    };
    let b = match loose {
        Some(l) => loose_pick(l),
        None => None,
    };
    match first_of(a, b) {
        Some(t) => t,
        None => if cleaned.len() == 0 {
            unformatted_reply_text()
        } else {
            cleaned
        },
    }
}

fn nonblank_text(s: &String) -> (r: Option<String>)
    ensures
        opt_text(r) == nonblank(Some(s@)),
{
    if is_blank(&chars_of(s.as_str())) {
        None
    } else {
        Some(s.clone())
    }
}

fn nonblank_opt(s: &Option<String>) -> (r: Option<String>)
    ensures
        opt_text(r) == nonblank(opt_text(*s)),
{
    match s {
        Some(t) => nonblank_text(t),
        None => None,
    }
}

fn typed_pick_text(p: &NativeLlmResponse) -> (r: Option<String>)
    ensures
        opt_text(r) == typed_pick(*p),
{
    let from_conv = match &p.conversational_response {
        Some(c) => {
            let t = match c {
                ConversationalContent::Text(t) => t.clone(),
                ConversationalContent::List(l) => join_strings(l, "\n"),
                ConversationalContent::Structured { content } => join_strings(content, "\n"),
            };
            nonblank_text(&t)
        },
        None => None,
    };
    if from_conv.is_some() {
        from_conv
    } else {
        nonblank_opt(&p.thought)
    }
}

fn loose_pick_text(l: &LooseReply) -> (r: Option<String>)
    ensures
        opt_text(r) == loose_pick(*l),
{
    let from_conv = match &l.conversational {
        LooseConversational::Nothing => None,
        LooseConversational::Text(t) => nonblank_text(t),
        LooseConversational::Items(v) => nonblank_text(&join_strings(v, "\n")),
    };
    if from_conv.is_some() {
        from_conv
    } else {
        nonblank_opt(&l.thought)
    }
}

/// The text to show the user for a model reply: the reply is stripped of
/// its code fence (see `strip_markdown`), and `typed` and `loose` are what
/// reading that stripped text as a typed reply and as any JSON value gave.
/// The first non-blank conversational response or thought wins; otherwise
/// the stripped text itself, or an apology when it is empty.
pub fn extract_conversational_text(
    text: &str,
    typed: &Option<NativeLlmResponse>,
    loose: &Option<LooseReply>,
) -> (r: String)
    ensures
        r@ == conversational_text(strip_markdown_spec(text@), *typed, *loose),
{
    let cleaned = strip_markdown(text);
    let a = match typed {
        Some(p) => typed_pick_text(p),
        None => None,
    };
    if let Some(t) = a {
        return t;
    }
    let b = match loose {
        Some(l) => loose_pick_text(l),
        None => None,
    };
    if let Some(t) = b {
        return t;
    }
    if cleaned.as_str().unicode_len() == 0 {
        return "I processed your request, but could not format the output. Could you try asking your question again?".to_string();
    }
    cleaned
}

/// Spaces replaced by underscores.
pub open spec fn underscored(s: Seq<char>) -> Seq<char> {
    s.map_values(|c: char| if c == ' ' { '_' } else { c })
}

/// The tool call a typed reply requests: one with a name that is neither
/// empty nor `null`, its spaces replaced by underscores.
pub open spec fn structural_tool_call(typed: Option<NativeLlmResponse>) -> Option<(Seq<char>, Seq<char>)> {
    match typed {
        Some(p) => match p.tool_call {
            Some(tc) => if tc.tool@.len() > 0 && tc.tool@ != "null"@ {
                Some((underscored(tc.tool@), tc.args@))
            } else {
                None
            },
            None => None,
        },
        None => None,
    }
}

/// The tool call requested by a reply whose typed reading is `typed`.
pub fn extract_structural_tool_call(typed: &Option<NativeLlmResponse>) -> (r: Option<ToolCallPayload>)
    ensures
        match r {
            Some(tc) => structural_tool_call(*typed) == Some((tc.tool@, tc.args@)),
            None => structural_tool_call(*typed) is None,
        },
{
    match typed {
        Some(p) => match &p.tool_call {
            Some(tc) => {
                let name = chars_of(tc.tool.as_str());
                if name.len() == 0 || crate::llm::tools::str_eq(tc.tool.as_str(), "null") {
                    return None;
                }
                let mut out: Vec<char> = Vec::new();
                let mut i: usize = 0;
                while i < name.len()
                    invariant
                        i <= name@.len(),
                        out@ == underscored(name@.take(i as int)),
                    decreases name.len() - i,
                {
                    let c = name[i];
                    out.push(if c == ' ' { '_' } else { c });
                    i = i + 1;
                    assert(out@ =~= underscored(name@.take(i as int)));
                }
                assert(name@.take(name@.len() as int) =~= name@);
                Some(ToolCallPayload { tool: string_from_chars(out.as_slice()), args: tc.args.clone() })
            },
            None => None,
        },
        None => None,
    }
}


/// The first `n` characters of a text (all of it when shorter).
pub open spec fn prefix_chars(s: Seq<char>, n: int) -> Seq<char> {
    if s.len() <= n {
        s
    } else {
        s.take(n)
    }
}

fn prefix_text(s: &str, n: usize) -> (r: String)
    ensures
        r@ == prefix_chars(s@, n as int),
{
    let c = chars_of(s);
    let end = if c.len() <= n { c.len() } else { n };
    let p = slice_chars(&c, 0, end);
    assert(c@.len() <= n ==> p@ =~= c@);
    assert(c@.len() > n ==> p@ =~= c@.take(n as int));
    string_from_chars(p.as_slice())
}

pub open spec fn vision_block(v: Seq<char>) -> Seq<char> {
    if all_ws(v) {
        Seq::empty()
    } else {
        "\n=== ATTACHED DOCUMENT CONTEXT (OCR) ===\n"@ + prefix_chars(v, 3000)
            + "\n=== END ATTACHED DOCUMENT CONTEXT ===\nINSTRUCTION: The user has attached a document above. Read the text inside the ATTACHED DOCUMENT CONTEXT block and use it directly to answer the user's request in the `conversational_response` JSON field. CRITICAL: If the user asks about a process, diagram, or non-financial details found in the document, you MUST answer it using the document context above. Do not refuse the prompt.\n\n"@
    }
}

pub open spec fn user_block(u: Seq<char>) -> Seq<char> {
    if all_ws(u) {
        Seq::empty()
    } else {
        framed_context(prefix_chars(u, 400))
    }
}

pub open spec fn rag_block(r: Seq<char>) -> Seq<char> {
    if all_ws(r) {
        Seq::empty()
    } else {
        "\n=== REFERENCE CONTEXT ===\n"@ + prefix_chars(r, 600) + "\n=== END REFERENCE CONTEXT ===\n"@
    }
}

/// The full system prompt: the fixed rules, the creator's biography, then
/// the attached-document text (first 3000 characters), the user's financial
/// context (first 400) and the reference context (first 600), each only when
/// not blank.
pub open spec fn system_prompt(bio: Seq<char>, user: Seq<char>, rag: Seq<char>, vision: Seq<char>) -> Seq<char> {
    SYSTEM_RULES@ + "\n\n"@ + bio + "\n\n"@ + vision_block(vision) + user_block(user) + rag_block(rag)
}

/// Builds the system prompt of a conversation turn.
pub fn build_system_prompt(creator_bio: &str, user_context: &str, rag_context: &str, vision_context: &str) -> (r: String)
    ensures
        r@ == system_prompt(creator_bio@, user_context@, rag_context@, vision_context@),
{
    let mut system = String::new();
    system.append(SYSTEM_RULES);
    system.append("\n\n");
    system.append(creator_bio);
    system.append("\n\n");
    if !is_blank(&chars_of(vision_context)) {
        let v = prefix_text(vision_context, 3000);
        system.append("\n=== ATTACHED DOCUMENT CONTEXT (OCR) ===\n");
        system.append(v.as_str());
        system.append("\n=== END ATTACHED DOCUMENT CONTEXT ===\nINSTRUCTION: The user has attached a document above. Read the text inside the ATTACHED DOCUMENT CONTEXT block and use it directly to answer the user's request in the `conversational_response` JSON field. CRITICAL: If the user asks about a process, diagram, or non-financial details found in the document, you MUST answer it using the document context above. Do not refuse the prompt.\n\n");
    }
    if !is_blank(&chars_of(user_context)) {
        let u = prefix_text(user_context, 400);
        let framed = format_context_for_prompt(u.as_str());
        system.append(framed.as_str());
    }
    if !is_blank(&chars_of(rag_context)) {
        let g = prefix_text(rag_context, 600);
        system.append("\n=== REFERENCE CONTEXT ===\n");
        system.append(g.as_str());
        system.append("\n=== END REFERENCE CONTEXT ===\n");
    }
    system
}

/// One message in ChatML form.
pub open spec fn history_entry(m: ChatMessage) -> Seq<char> {
    "<|im_start|>"@ + m.role@ + "\n"@ + m.content@ + "<|im_end|>\n"@
}

/// The texts one after another.
pub open spec fn concat(parts: Seq<Seq<char>>) -> Seq<char>
    decreases parts.len(),
{
    if parts.len() == 0 {
        Seq::empty()
    } else {
        concat(parts.drop_last()) + parts.last()
    }
}

/// How many of the last entries fit in `budget` bytes, counting from the
/// newest and stopping at the first that does not fit.
pub open spec fn fitting_count(entries: Seq<Seq<char>>, budget: int) -> nat
    decreases entries.len(),
{
    if entries.len() == 0 {
        0
    } else if utf8_len(entries.last()) > budget {
        0
    } else {
        1 + fitting_count(entries.drop_last(), budget - utf8_len(entries.last()))
    }
}

pub open spec fn history_entries(msgs: Seq<ChatMessage>) -> Seq<Seq<char>> {
    msgs.map_values(|m: ChatMessage| history_entry(m))
}

/// The most recent messages that fit in `max_bytes`, oldest first.
pub open spec fn history_text(msgs: Seq<ChatMessage>, max_bytes: int) -> Seq<char> {
    let e = history_entries(msgs);
    concat(e.skip(e.len() - fitting_count(e, max_bytes)))
}

fn history_entry_text(m: &ChatMessage) -> (r: String)
    ensures
        r@ == history_entry(*m),
{
    let mut r = String::new();
    r.append("<|im_start|>");
    r.append(m.role.as_str());
    r.append("\n");
    r.append(m.content.as_str());
    r.append("<|im_end|>\n");
    r
}

/// Formats the most recent messages in ChatML, oldest first, keeping as
/// many as fit in `max_chars` bytes counted from the newest message back.
/// Each message's content is expected already reduced to its
/// conversational text (see `extract_conversational_text`).
pub fn format_chat_history(chat_history: &Vec<ChatMessage>, max_chars: usize) -> (r: String)
    ensures
        r@ == history_text(chat_history@, max_chars as int),
{
    let ghost e = history_entries(chat_history@);
    let n = chat_history.len();
    let mut i: usize = n;
    let mut current_len: usize = 0;
    assert(e.take(n as int) =~= e);
    while i > 0
        invariant_except_break
            i <= n,
            n == chat_history@.len(),
            e == history_entries(chat_history@),
            current_len <= max_chars,
            fitting_count(e, max_chars as int) == (n - i) + fitting_count(e.take(i as int), max_chars - current_len),
        ensures
            i <= n,
            fitting_count(e, max_chars as int) == n - i,
        decreases i,
    {
        let formatted = history_entry_text(&chat_history[i - 1]);
        let flen = byte_len(formatted.as_str());
        assert(e.take(i as int).last() == e[i - 1]);
        assert(e.take(i as int).drop_last() =~= e.take(i - 1));
        if flen > max_chars - current_len {
            break;
        }
        current_len = current_len + flen;
        i = i - 1;
    }
    let mut r = String::new();
    let mut j: usize = i;
    assert(e.skip(n - fitting_count(e, max_chars as int)) =~= e.subrange(i as int, n as int));
    while j < n
        invariant
            i <= j <= n,
            n == chat_history@.len(),
            e == history_entries(chat_history@),
            r@ == concat(e.subrange(i as int, j as int)),
        decreases n - j,
    {
        let formatted = history_entry_text(&chat_history[j]);
        assert(e.subrange(i as int, j + 1).drop_last() =~= e.subrange(i as int, j as int));
        r.append(formatted.as_str());
        j = j + 1;
    }
    r
}

/// The ChatML prompt of a turn: system prompt, recent history (up to 1800
/// bytes), the user's message, and the opening of the assistant's reply.
pub open spec fn chat_template(user_message: Seq<char>, history: Seq<ChatMessage>, system: Seq<char>) -> Seq<char> {
    "<|im_start|>system\n"@ + system + "<|im_end|>\n"@ + history_text(history, 1800) + "<|im_start|>user\n"@
        + user_message + "<|im_end|>\n<|im_start|>assistant\n"@
}

pub fn build_chat_template(user_message: &str, chat_history: &Vec<ChatMessage>, system_prompt: &str) -> (r: String)
    ensures
        r@ == chat_template(user_message@, chat_history@, system_prompt@),
{
    let h = format_chat_history(chat_history, 1800);
    let mut r = String::new();
    r.append("<|im_start|>system\n");
    r.append(system_prompt);
    r.append("<|im_end|>\n");
    r.append(h.as_str());
    r.append("<|im_start|>user\n");
    r.append(user_message);
    r.append("<|im_end|>\n<|im_start|>assistant\n");
    r
}

/// The prompt asking the model to explain a tool's result (`result_json`,
/// compact JSON) to the user, with recent history up to 1000 bytes.
pub open spec fn explain_prompt(user_message: Seq<char>, result_json: Seq<char>, history: Seq<ChatMessage>) -> Seq<char> {
    "<|im_start|>system\n"@ + EXPLAIN_SYSTEM@ + "<|im_end|>\n"@ + history_text(history, 1000)
        + "<|im_start|>user\n"@ + user_message
        + "<|im_end|>\n<|im_start|>assistant\n[Calculation completed successfully]\n<|im_start|>user\nCalculation details:\n"@
        + result_json
        + "\n\nProvide a friendly, conversational summary of these results with practical financial context.<|im_end|>\n<|im_start|>assistant\n"@
}

pub fn build_explain_prompt(user_message: &str, result_json: &str, chat_history: &Vec<ChatMessage>) -> (r: String)
    ensures
        r@ == explain_prompt(user_message@, result_json@, chat_history@),
{
    let h = format_chat_history(chat_history, 1000);
    let mut r = String::new();
    r.append("<|im_start|>system\n");
    r.append(EXPLAIN_SYSTEM);
    r.append("<|im_end|>\n");
    r.append(h.as_str());
    r.append("<|im_start|>user\n");
    r.append(user_message);
    r.append("<|im_end|>\n<|im_start|>assistant\n[Calculation completed successfully]\n<|im_start|>user\nCalculation details:\n");
    r.append(result_json);
    r.append("\n\nProvide a friendly, conversational summary of these results with practical financial context.<|im_end|>\n<|im_start|>assistant\n");
    r
}


/// How extracting text from the attachments ended.
pub enum VisionOutcome {
    Extracted(String),
    Failed,
    TimedOut,
}

/// The attachment text the system prompt receives; when attachments were
/// sent but gave no text, a note telling the model what went wrong.
pub open spec fn vision_context_text(has_attachments: bool, outcome: VisionOutcome) -> Seq<char> {
    match outcome {
        VisionOutcome::Extracted(t) => if !all_ws(t@) {
            t@
        } else if has_attachments {
            "[SYSTEM UNABLE TO READ IMAGE TEXT - ASK USER FOR CLEARER IMAGE OR MANUAL DETAILS]"@
        } else {
            Seq::empty()
        },
        VisionOutcome::Failed => if has_attachments {
            "[SYSTEM ERROR PROCESSING IMAGE - ASK USER TO RETRY OR TYPE DETAILS MANUALLY]"@
        } else {
            Seq::empty()
        },
        VisionOutcome::TimedOut => if has_attachments {
            "[SYSTEM VISION TIMEOUT - ASK USER FOR SMALLER FILE OR MANUAL DETAILS]"@
        } else {
            Seq::empty()
        },
    }
}

pub fn vision_context(has_attachments: bool, outcome: &VisionOutcome) -> (r: String)
    ensures
        r@ == vision_context_text(has_attachments, *outcome),
{
    match outcome {
        VisionOutcome::Extracted(t) => {
            if !is_blank(&chars_of(t.as_str())) {
                t.clone()
            } else if has_attachments {
                "[SYSTEM UNABLE TO READ IMAGE TEXT - ASK USER FOR CLEARER IMAGE OR MANUAL DETAILS]".to_string()
            } else {
                String::new()
            }
        },
        VisionOutcome::Failed => {
            if has_attachments {
                "[SYSTEM ERROR PROCESSING IMAGE - ASK USER TO RETRY OR TYPE DETAILS MANUALLY]".to_string()
            } else {
                String::new()
            }
        },
        VisionOutcome::TimedOut => {
            if has_attachments {
                "[SYSTEM VISION TIMEOUT - ASK USER FOR SMALLER FILE OR MANUAL DETAILS]".to_string()
            } else {
                String::new()
            }
        },
    }
}

/// Most attachments a single message may carry.
pub const MAX_ATTACHMENTS: usize = 3;

/// How streaming a generation ended: the text collected, or why it stopped.
pub enum Generation {
    Text(String),
    TokenError,
    EngineError,
}

/// How running a requested tool ended: its result as compact JSON, or the
/// diagnostic report's summary, remediation and JSON payload.
pub enum ToolOutcome {
    Completed { result_json: String },
    Refused { error_summary: String, remediation: String, report_json: String },
}

/// What the turn needs done next.
pub enum ChatNext {
    /// Gather the user's financial context, reference context and, when
    /// there are attachments, their text.
    GatherContext { has_attachments: bool },
    /// Stream the model's reply to the prompt (`on_reply`).
    Generate { prompt: String },
    /// Stream the explanation of a tool result (`on_explanation`).
    Explain { prompt: String },
    /// Stream a corrected reply after a refused tool call (`on_retry`).
    Retry { prompt: String },
    /// Run the tool the model asked for (`on_tool`).
    RunTool { tool: String, args: String },
    /// The turn is over.
    Finish,
    /// The turn ends with an error.
    Fail(AppError),
}

/// Messages to send to the user, in order, and what comes next.
pub struct ChatStep {
    pub emit: Vec<String>,
    pub next: ChatNext,
}

/// The state of one conversation turn.
pub struct ChatTurn {
    pub user_message: String,
    pub history: Vec<ChatMessage>,
    pub creator_bio: String,
    pub has_attachments: bool,
    pub raw_prompt: String,
    pub reply: String,
    pub retries_left: u64,
    pub retry_history: Vec<String>,
    pub tool: String,
}

/// Refused tool calls the model may correct before the turn gives up.
pub const TOOL_RETRIES: u64 = 2;

/// Every correction sent to the model used up one retry: a turn never asks
/// for more than `TOOL_RETRIES` corrections.
pub open spec fn retry_budget(t: ChatTurn) -> bool {
    t.retry_history@.len() + t.retries_left == TOOL_RETRIES
}

pub open spec fn attachment_limit_text() -> Seq<char> {
    "You can only attach up to 3 documents/images at a time. Please select fewer files and try again."@
}

pub open spec fn glitch_text() -> Seq<char> {
    "I ran into a connection glitch while processing your files. Could you try asking once more?"@
}

pub open spec fn trouble_text() -> Seq<char> {
    "I'm having trouble processing that prompt. Please give me a moment and try again."@
}

pub open spec fn explanation_failed_text() -> Seq<char> {
    "I've calculated your financial details above, but ran into an error formatting the response text."@
}

pub open spec fn gave_up_text() -> Seq<char> {
    "I couldn't complete that calculation. Mind double-checking the figures so we can try again?"@
}

pub open spec fn missing_details_text(remediation: Seq<char>) -> Seq<char> {
    "I was trying to run the calculations for you, but I'm missing a few exact details. "@ + remediation
}

/// The record of a refused call that the retry prompt carries.
pub open spec fn retry_entry(reply: Seq<char>, report_json: Seq<char>) -> Seq<char> {
    "<|im_start|>assistant\n"@ + trim(reply) + "\n<|im_end|>\n<|im_start|>tool\n"@ + report_json + "\n<|im_end|>\n"@
}

/// The prompt asking the model to correct a refused tool call.
pub open spec fn retry_prompt(raw_prompt: Seq<char>, retry_history: Seq<Seq<char>>, error_summary: Seq<char>) -> Seq<char> {
    raw_prompt + concat(retry_history) + "<|im_start|>user\nThe previous tool call failed validation: "@ + error_summary
        + ". Please provide the required sub-fields and re-issue the tool call in valid JSON format.<|im_end|>\n<|im_start|>assistant\n"@
}

/// `Prompt::build` of a text, as the next step: the generation asked for
/// by `make`, or the error.
pub open spec fn prompt_step(next: ChatNext, text: Seq<char>, kind: int) -> bool {
    if all_ws(text) {
        next matches ChatNext::Fail(AppError::InvalidInput(m)) && m@ == "Prompt cannot be empty."@
    } else if utf8_len(text) > MAX_PROMPT_BYTES {
        next matches ChatNext::Fail(AppError::InvalidInput(m)) && m@ == "Prompt exceeds maximum allowed length."@
    } else if kind == 0 {
        next matches ChatNext::Generate { prompt } && prompt@ == text
    } else {
        next matches ChatNext::Explain { prompt } && prompt@ == text
    }
}

/// The two turns agree on everything but the reply, tool and retry state.
pub open spec fn same_conversation(a: ChatTurn, b: ChatTurn) -> bool {
    &&& a.user_message@ == b.user_message@
    &&& a.history@ == b.history@
    &&& a.creator_bio@ == b.creator_bio@
    &&& a.has_attachments == b.has_attachments
    &&& a.raw_prompt@ == b.raw_prompt@
}

/// The step taken on a model reply that arrived in full (`text`): run the
/// tool it asks for, else show its conversational text and finish.
pub open spec fn read_reply_step(
    step: ChatStep,
    text: Seq<char>,
    typed: Option<NativeLlmResponse>,
    loose: Option<LooseReply>,
) -> bool {
    match structural_tool_call(typed) {
        Some((tool, args)) => step.emit@.len() == 0 && (step.next matches ChatNext::RunTool { tool: t, args: a } && t@
            == tool && a@ == args),
        None => strings_view(step.emit@) == seq![conversational_text(strip_markdown_spec(text), typed, loose)]
            && step.next is Finish,
    }
}

fn one(s: String) -> (v: Vec<String>)
    ensures
        strings_view(v@) == seq![s@],
{
    let mut v: Vec<String> = Vec::new();
    v.push(s);
    assert(strings_view(v@) =~= seq![s@]);
    v
}

fn built_step(text: &String, explain: bool) -> (next: ChatNext)
    ensures
        prompt_step(next, text@, if explain { 1 } else { 0 }),
{
    match Prompt::build(text.as_str(), None) {
        Ok(p) => if explain {
            ChatNext::Explain { prompt: p }
        } else {
            ChatNext::Generate { prompt: p }
        },
        Err(e) => ChatNext::Fail(e),
    }
}

impl ChatTurn {
    /// Opens a turn: more than three attachments are refused with a message;
    /// otherwise the context is gathered first.
    pub fn start(user_message: String, history: Vec<ChatMessage>, creator_bio: String, attachment_count: usize) -> (r: (
        ChatTurn,
        ChatStep,
    ))
        ensures
            r.0.user_message@ == user_message@,
            r.0.history@ == history@,
            r.0.creator_bio@ == creator_bio@,
            r.0.has_attachments == (attachment_count > 0),
            r.0.raw_prompt@.len() == 0,
            r.0.reply@.len() == 0,
            r.0.retries_left == TOOL_RETRIES,
            r.0.retry_history@.len() == 0,
            retry_budget(r.0),
            attachment_count > MAX_ATTACHMENTS ==> strings_view(r.1.emit@) == seq![attachment_limit_text()]
                && r.1.next is Finish,
            attachment_count <= MAX_ATTACHMENTS ==> r.1.emit@.len() == 0 && (r.1.next matches ChatNext::GatherContext {
                has_attachments,
            } && has_attachments == (attachment_count > 0)),
    {
        let turn = ChatTurn {
            user_message,
            history,
            creator_bio,
            has_attachments: attachment_count > 0,
            raw_prompt: String::new(),
            reply: String::new(),
            retries_left: TOOL_RETRIES,
            retry_history: Vec::new(),
            tool: String::new(),
        };
        if attachment_count > MAX_ATTACHMENTS {
            let msg = "You can only attach up to 3 documents/images at a time. Please select fewer files and try again.".to_string();
            return (turn, ChatStep { emit: one(msg), next: ChatNext::Finish });
        }
        let has = attachment_count > 0;
        (turn, ChatStep { emit: Vec::new(), next: ChatNext::GatherContext { has_attachments: has } })
    }

    /// Builds the turn's prompt from the gathered context and asks for the
    /// model's reply.
    pub fn on_context(&mut self, user_context_raw: &str, rag_context: &str, vision: &VisionOutcome) -> (step: ChatStep)
        ensures
            final(self).raw_prompt@ == chat_template(
                old(self).user_message@,
                old(self).history@,
                system_prompt(
                    old(self).creator_bio@,
                    framed_context(user_context_raw@),
                    rag_context@,
                    vision_context_text(old(self).has_attachments, *vision),
                ),
            ),
            final(self).user_message@ == old(self).user_message@,
            final(self).history@ == old(self).history@,
            final(self).creator_bio@ == old(self).creator_bio@,
            final(self).has_attachments == old(self).has_attachments,
            final(self).reply@ == old(self).reply@,
            final(self).retries_left == old(self).retries_left,
            final(self).retry_history@ == old(self).retry_history@,
            step.emit@.len() == 0,
            prompt_step(step.next, final(self).raw_prompt@, 0),
    {
        let user_context = format_context_for_prompt(user_context_raw);
        let vision_text = vision_context(self.has_attachments, vision);
        let system = build_system_prompt(
            self.creator_bio.as_str(),
            user_context.as_str(),
            rag_context,
            vision_text.as_str(),
        );
        let raw = build_chat_template(self.user_message.as_str(), &self.history, system.as_str());
        let next = built_step(&raw, false);
        self.raw_prompt = raw;
        ChatStep { emit: Vec::new(), next }
    }

    fn read_reply(&mut self, text: &String, typed: &Option<NativeLlmResponse>, loose: &Option<LooseReply>) -> (step: ChatStep)
        ensures
            same_conversation(*final(self), *old(self)),
            final(self).reply@ == text@,
            final(self).retries_left == old(self).retries_left,
            final(self).retry_history@ == old(self).retry_history@,
            read_reply_step(step, text@, *typed, *loose),
            structural_tool_call(*typed) matches Some((tool, _)) ==> final(self).tool@ == tool,
    {
        self.reply = text.clone();
        match extract_structural_tool_call(typed) {
            Some(tc) => {
                self.tool = tc.tool.clone();
                ChatStep { emit: Vec::new(), next: ChatNext::RunTool { tool: tc.tool, args: tc.args } }
            },
            None => {
                let t = extract_conversational_text(text.as_str(), typed, loose);
                ChatStep { emit: one(t), next: ChatNext::Finish }
            },
        }
    }

    /// Handles the model's reply. `typed` and `loose` are the readings of
    /// the reply's text after `strip_markdown` (see
    /// `extract_conversational_text`); they are not looked at when the
    /// generation failed.
    pub fn on_reply(&mut self, g: &Generation, typed: &Option<NativeLlmResponse>, loose: &Option<LooseReply>) -> (step: ChatStep)
        ensures
            same_conversation(*final(self), *old(self)),
            final(self).retries_left == old(self).retries_left,
            final(self).retry_history@ == old(self).retry_history@,
            match g {
                Generation::Text(t) => final(self).reply@ == t@ && read_reply_step(step, t@, *typed, *loose)
                    && (structural_tool_call(*typed) matches Some((tool, _)) ==> final(self).tool@ == tool),
                Generation::TokenError => strings_view(step.emit@) == seq![glitch_text()] && step.next is Finish,
                Generation::EngineError => strings_view(step.emit@) == seq![trouble_text()] && step.next is Finish,
            },
    {
        match g {
            Generation::Text(t) => self.read_reply(t, typed, loose),
            Generation::TokenError => ChatStep {
                emit: one("I ran into a connection glitch while processing your files. Could you try asking once more?".to_string()),
                next: ChatNext::Finish,
            },
            Generation::EngineError => ChatStep {
                emit: one("I'm having trouble processing that prompt. Please give me a moment and try again.".to_string()),
                next: ChatNext::Finish,
            },
        }
    }

    /// Handles the end of a tool run. A result is announced, shown, and
    /// handed to the model to explain. A refusal is sent back to the model
    /// for correction while retries remain; after that the user is told
    /// what is missing.
    pub fn on_tool(&mut self, outcome: &ToolOutcome) -> (step: ChatStep)
        ensures
            retry_budget(*old(self)) ==> retry_budget(*final(self)),
            same_conversation(*final(self), *old(self)),
            final(self).reply@ == old(self).reply@,
            match outcome {
                ToolOutcome::Completed { result_json } => {
                    &&& final(self).retries_left == old(self).retries_left
                    &&& final(self).retry_history@ == old(self).retry_history@
                    &&& strings_view(step.emit@) == seq![
                        "[TOOL_CALL:"@ + old(self).tool@ + "]"@,
                        "[TOOL_RESULT:"@ + result_json@ + "]"@,
                    ]
                    &&& prompt_step(
                        step.next,
                        explain_prompt(old(self).user_message@, result_json@, old(self).history@),
                        1,
                    )
                },
                ToolOutcome::Refused { error_summary, remediation, report_json } => if old(self).retries_left == 0 {
                    &&& final(self).retries_left == 0
                    &&& final(self).retry_history@ == old(self).retry_history@
                    &&& strings_view(step.emit@) == seq![missing_details_text(remediation@)]
                    &&& step.next is Finish
                } else {
                    let hist = strings_view(old(self).retry_history@).push(retry_entry(old(self).reply@, report_json@));
                    let p = retry_prompt(old(self).raw_prompt@, hist, error_summary@);
                    &&& final(self).retries_left == old(self).retries_left - 1
                    &&& strings_view(final(self).retry_history@) == hist
                    &&& if all_ws(p) || utf8_len(p) > MAX_PROMPT_BYTES {
                        strings_view(step.emit@) == seq![gave_up_text()] && step.next is Finish
                    } else {
                        step.emit@.len() == 0 && (step.next matches ChatNext::Retry { prompt } && prompt@ == p)
                    }
                },
            },
    {
        match outcome {
            ToolOutcome::Completed { result_json } => {
                let mut call = String::new();
                call.append("[TOOL_CALL:");
                call.append(self.tool.as_str());
                call.append("]");
                let mut res = String::new();
                res.append("[TOOL_RESULT:");
                res.append(result_json.as_str());
                res.append("]");
                let mut emit: Vec<String> = Vec::new();
                emit.push(call);
                emit.push(res);
                let ghost e = emit@;
                assert(strings_view(e) =~= seq![e[0]@, e[1]@]);
                let explain = build_explain_prompt(self.user_message.as_str(), result_json.as_str(), &self.history);
                let next = built_step(&explain, true);
                ChatStep { emit, next }
            },
            ToolOutcome::Refused { error_summary, remediation, report_json } => {
                if self.retries_left == 0 {
                    let mut msg = String::new();
                    msg.append("I was trying to run the calculations for you, but I'm missing a few exact details. ");
                    msg.append(remediation.as_str());
                    return ChatStep { emit: one(msg), next: ChatNext::Finish };
                }
                self.retries_left = self.retries_left - 1;
                let trimmed_reply = trimmed(&chars_of(self.reply.as_str()));
                let mut entry = String::new();
                entry.append("<|im_start|>assistant\n");
                entry.append(string_from_chars(trimmed_reply.as_slice()).as_str());
                entry.append("\n<|im_end|>\n<|im_start|>tool\n");
                entry.append(report_json.as_str());
                entry.append("\n<|im_end|>\n");
                let ghost h0 = strings_view(self.retry_history@);
                self.retry_history.push(entry);
                assert(strings_view(self.retry_history@) =~= h0.push(retry_entry(self.reply@, report_json@)));
                let mut p = String::new();
                p.append(self.raw_prompt.as_str());
                let ghost hv = strings_view(self.retry_history@);
                let mut k: usize = 0;
                while k < self.retry_history.len()
                    invariant
                        k <= self.retry_history@.len(),
                        hv == strings_view(self.retry_history@),
                        p@ == self.raw_prompt@ + concat(hv.take(k as int)),
                    decreases self.retry_history.len() - k,
                {
                    assert(hv.take(k + 1).drop_last() =~= hv.take(k as int));
                    p.append(self.retry_history[k].as_str());
                    k = k + 1;
                }
                assert(hv.take(hv.len() as int) =~= hv);
                p.append("<|im_start|>user\nThe previous tool call failed validation: ");
                p.append(error_summary.as_str());
                p.append(". Please provide the required sub-fields and re-issue the tool call in valid JSON format.<|im_end|>\n<|im_start|>assistant\n");
                match Prompt::build(p.as_str(), None) {
                    Ok(q) => ChatStep { emit: Vec::new(), next: ChatNext::Retry { prompt: q } },
                    Err(_) => ChatStep {
                        emit: one("I couldn't complete that calculation. Mind double-checking the figures so we can try again?".to_string()),
                        next: ChatNext::Finish,
                    },
                }
            },
        }
    }

    /// Handles the explanation of a tool result: its conversational text is
    /// shown, or an apology when it could not be generated; the turn ends.
    pub fn on_explanation(&self, g: &Generation, typed: &Option<NativeLlmResponse>, loose: &Option<LooseReply>) -> (step: ChatStep)
        ensures
            step.next is Finish,
            match g {
                Generation::Text(t) => strings_view(step.emit@) == seq![
                    conversational_text(strip_markdown_spec(t@), *typed, *loose),
                ],
                _ => strings_view(step.emit@) == seq![explanation_failed_text()],
            },
    {
        match g {
            Generation::Text(t) => ChatStep { emit: one(extract_conversational_text(t.as_str(), typed, loose)), next: ChatNext::Finish },
            _ => ChatStep {
                emit: one("I've calculated your financial details above, but ran into an error formatting the response text.".to_string()),
                next: ChatNext::Finish,
            },
        }
    }

    /// Handles the corrected reply after a refused tool call: it is read
    /// like the first reply; when it could not be generated the turn ends
    /// with an apology.
    pub fn on_retry(&mut self, g: &Generation, typed: &Option<NativeLlmResponse>, loose: &Option<LooseReply>) -> (step: ChatStep)
        ensures
            same_conversation(*final(self), *old(self)),
            final(self).retries_left == old(self).retries_left,
            final(self).retry_history@ == old(self).retry_history@,
            match g {
                Generation::Text(t) => final(self).reply@ == t@ && read_reply_step(step, t@, *typed, *loose)
                    && (structural_tool_call(*typed) matches Some((tool, _)) ==> final(self).tool@ == tool),
                _ => strings_view(step.emit@) == seq![gave_up_text()] && step.next is Finish,
            },
    {
        match g {
            Generation::Text(t) => self.read_reply(t, typed, loose),
            _ => ChatStep {
                emit: one("I couldn't complete that calculation. Mind double-checking the figures so we can try again?".to_string()),
                next: ChatNext::Finish,
            },
        }
    }
}


proof fn lemma_utf8_len_concat(a: Seq<char>, b: Seq<char>)
    ensures
        utf8_len(a + b) == utf8_len(a) + utf8_len(b),
    decreases a.len(),
{
    if a.len() == 0 {
        assert(a + b =~= b);
        assert(vstd::utf8::encode_utf8(a) =~= Seq::<u8>::empty());
    } else {
        lemma_utf8_len_concat(a.drop_first(), b);
        assert((a + b).drop_first() =~= a.drop_first() + b);
        assert((a + b)[0] == a[0]);
    }
}

/// Total UTF-8 length of the texts.
pub open spec fn total_bytes(parts: Seq<Seq<char>>) -> int
    decreases parts.len(),
{
    if parts.len() == 0 {
        0
    } else {
        total_bytes(parts.drop_last()) + utf8_len(parts.last())
    }
}

proof fn lemma_concat_bytes(parts: Seq<Seq<char>>)
    ensures
        utf8_len(concat(parts)) == total_bytes(parts),
    decreases parts.len(),
{
    if parts.len() > 0 {
        lemma_concat_bytes(parts.drop_last());
        lemma_utf8_len_concat(concat(parts.drop_last()), parts.last());
    } else {
        assert(vstd::utf8::encode_utf8(Seq::<char>::empty()) =~= Seq::<u8>::empty());
    }
}

proof fn lemma_fitting_total(e: Seq<Seq<char>>, budget: int)
    requires
        budget >= 0,
    ensures
        fitting_count(e, budget) <= e.len(),
        total_bytes(e.skip(e.len() - fitting_count(e, budget))) <= budget,
    decreases e.len(),
{
    let n = fitting_count(e, budget);
    if e.len() == 0 {
        assert(e.skip(0) =~= e);
    } else if utf8_len(e.last()) > budget {
        assert(e.skip(e.len() as int) =~= Seq::<Seq<char>>::empty());
    } else {
        let init = e.drop_last();
        let b2 = budget - utf8_len(e.last());
        lemma_fitting_total(init, b2);
        let m = fitting_count(init, b2);
        let tail = e.skip(e.len() - n);
        assert(tail.drop_last() =~= init.skip(init.len() - m));
        assert(tail.last() == e.last());
    }
}

/// The history put into a prompt never exceeds its byte budget.
pub proof fn law_history_fits_budget(msgs: Seq<ChatMessage>, max_bytes: int)
    requires
        max_bytes >= 0,
    ensures
        utf8_len(history_text(msgs, max_bytes)) <= max_bytes,
{
    let e = history_entries(msgs);
    lemma_fitting_total(e, max_bytes);
    lemma_concat_bytes(e.skip(e.len() - fitting_count(e, max_bytes)));
}

} // verus!
