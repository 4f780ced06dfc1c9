use fintally::chat::context::{assemble_snapshot, burn_days_text, format_context_for_prompt};
use fintally::chat::orchestrator::{
    build_chat_template, build_explain_prompt, build_system_prompt, extract_conversational_text,
    extract_structural_tool_call, format_chat_history, strip_markdown, vision_context, ChatMessage, ChatNext,
    ChatTurn, ConversationalContent, Generation, LooseConversational, LooseReply, NativeLlmResponse, ToolCallPayload,
    ToolOutcome, VisionOutcome, SYSTEM_RULES,
};

fn msg(role: &str, content: &str) -> ChatMessage {
    ChatMessage { role: role.to_string(), content: content.to_string() }
}

fn typed_text(t: &str) -> Option<NativeLlmResponse> {
    Some(NativeLlmResponse {
        thought: None,
        tool_call: None,
        conversational_response: Some(ConversationalContent::Text(t.to_string())),
    })
}

fn typed_tool(name: &str, args: &str) -> Option<NativeLlmResponse> {
    Some(NativeLlmResponse {
        thought: Some("need a tool".to_string()),
        tool_call: Some(ToolCallPayload { tool: name.to_string(), args: args.to_string() }),
        conversational_response: None,
    })
}

#[test]
fn context_framing() {
    assert_eq!(format_context_for_prompt("  \n"), "");
    assert_eq!(
        format_context_for_prompt("Net Worth: 5"),
        "\n\nHere is the current user's real financial data. Use these numbers when answering \u{2014} do not make up figures:\nNet Worth: 5\n"
    );
    assert_eq!(assemble_snapshot(&Vec::new()), "");
    assert_eq!(
        assemble_snapshot(&vec!["Savings Rate: 12.5%".to_string()]),
        "=== USER FINANCIAL SNAPSHOT ===\nSavings Rate: 12.5%\n=== END SNAPSHOT ==="
    );
    assert_eq!(burn_days_text(42), "42d left");
    assert_eq!(burn_days_text(-3), "-3d left");
    assert_eq!(burn_days_text(9999), "no budget set");
}

#[test]
fn markdown_fences_are_stripped() {
    assert_eq!(strip_markdown("  ```json\n{\"a\":1}\n```  "), "{\"a\":1}");
    assert_eq!(strip_markdown("```\nhello\n```"), "hello");
    assert_eq!(strip_markdown("plain"), "plain");
    assert_eq!(strip_markdown("```"), "");
}

#[test]
fn conversational_text_prefers_the_typed_reply() {
    assert_eq!(extract_conversational_text("x", &typed_text("Hi there"), &None), "Hi there");
    let list = Some(NativeLlmResponse {
        thought: None,
        tool_call: None,
        conversational_response: Some(ConversationalContent::List(vec!["a".to_string(), "b".to_string()])),
    });
    assert_eq!(extract_conversational_text("x", &list, &None), "a\nb");
    let thought_only = Some(NativeLlmResponse { thought: Some("thinking".to_string()), tool_call: None, conversational_response: Some(ConversationalContent::Text("  ".to_string())) });
    assert_eq!(extract_conversational_text("x", &thought_only, &None), "thinking");
    let loose = Some(LooseReply { conversational: LooseConversational::Items(vec!["p".to_string(), "q".to_string()]), thought: None });
    assert_eq!(extract_conversational_text("x", &None, &loose), "p\nq");
    assert_eq!(extract_conversational_text("```\nraw text\n```", &None, &None), "raw text");
    assert_eq!(
        extract_conversational_text("   ", &None, &None),
        "I processed your request, but could not format the output. Could you try asking your question again?"
    );
}

#[test]
fn tool_calls_are_normalized() {
    let tc = extract_structural_tool_call(&typed_tool("calculate emi", "{\"principal\":1}")).unwrap();
    assert_eq!(tc.tool, "calculate_emi");
    assert_eq!(tc.args, "{\"principal\":1}");
    assert!(extract_structural_tool_call(&typed_tool("null", "{}")).is_none());
    assert!(extract_structural_tool_call(&typed_tool("", "{}")).is_none());
    assert!(extract_structural_tool_call(&None).is_none());
}

#[test]
fn history_keeps_the_newest_messages_that_fit() {
    let h = vec![msg("user", "first"), msg("assistant", "second"), msg("user", "third")];
    let entry = "<|im_start|>user\nthird<|im_end|>\n";
    assert_eq!(format_chat_history(&h, entry.len()), entry);
    assert_eq!(format_chat_history(&h, entry.len() - 1), "");
    assert_eq!(
        format_chat_history(&h, 1000),
        "<|im_start|>user\nfirst<|im_end|>\n<|im_start|>assistant\nsecond<|im_end|>\n<|im_start|>user\nthird<|im_end|>\n"
    );
}

#[test]
fn prompts_are_assembled() {
    let sys = build_system_prompt("BIO", "", " ", "");
    assert_eq!(sys, format!("{}\n\nBIO\n\n", SYSTEM_RULES));
    let with_rag = build_system_prompt("", "", "rules", "");
    assert!(with_rag.ends_with("\n=== REFERENCE CONTEXT ===\nrules\n=== END REFERENCE CONTEXT ===\n"));
    let long_rag = "r".repeat(700);
    assert!(build_system_prompt("", "", &long_rag, "").contains(&format!("\n{}\n=== END REFERENCE CONTEXT", "r".repeat(600))));
    let t = build_chat_template("hi", &vec![msg("assistant", "yo")], "SYS");
    assert_eq!(t, "<|im_start|>system\nSYS<|im_end|>\n<|im_start|>assistant\nyo<|im_end|>\n<|im_start|>user\nhi<|im_end|>\n<|im_start|>assistant\n");
    let e = build_explain_prompt("emi?", "{\"emi\":100}", &Vec::new());
    assert!(e.contains("<|im_start|>user\nemi?<|im_end|>\n<|im_start|>assistant\n[Calculation completed successfully]\n<|im_start|>user\nCalculation details:\n{\"emi\":100}\n\n"));
}

#[test]
fn vision_context_notes() {
    assert_eq!(vision_context(true, &VisionOutcome::Extracted("  ".to_string())), "[SYSTEM UNABLE TO READ IMAGE TEXT - ASK USER FOR CLEARER IMAGE OR MANUAL DETAILS]");
    assert_eq!(vision_context(false, &VisionOutcome::Failed), "");
    assert_eq!(vision_context(true, &VisionOutcome::TimedOut), "[SYSTEM VISION TIMEOUT - ASK USER FOR SMALLER FILE OR MANUAL DETAILS]");
    assert_eq!(vision_context(true, &VisionOutcome::Extracted("Total 42".to_string())), "Total 42");
}

#[test]
fn a_turn_refuses_too_many_attachments() {
    let (_, step) = ChatTurn::start("hi".to_string(), Vec::new(), String::new(), 4);
    assert_eq!(step.emit, vec!["You can only attach up to 3 documents/images at a time. Please select fewer files and try again."]);
    assert!(matches!(step.next, ChatNext::Finish));
}

#[test]
fn a_turn_runs_a_tool_and_explains_it() {
    let (mut turn, step) = ChatTurn::start("emi for 5 lakh".to_string(), Vec::new(), "BIO".to_string(), 0);
    assert!(matches!(step.next, ChatNext::GatherContext { has_attachments: false }));
    let step = turn.on_context("", "", &VisionOutcome::Extracted(String::new()));
    let prompt = match step.next {
        ChatNext::Generate { prompt } => prompt,
        _ => panic!("expected a generation"),
    };
    assert!(prompt.ends_with("<|im_start|>user\nemi for 5 lakh<|im_end|>\n<|im_start|>assistant\n"));
    let reply = "{\"tool_call\":{\"tool\":\"calculate emi\"}}".to_string();
    let step = turn.on_reply(&Generation::Text(reply), &typed_tool("calculate emi", "{}"), &None);
    match step.next {
        ChatNext::RunTool { tool, args } => {
            assert_eq!(tool, "calculate_emi");
            assert_eq!(args, "{}");
        }
        _ => panic!("expected a tool run"),
    }
    let step = turn.on_tool(&ToolOutcome::Completed { result_json: "{\"emi\":1}".to_string() });
    assert_eq!(step.emit, vec!["[TOOL_CALL:calculate_emi]", "[TOOL_RESULT:{\"emi\":1}]"]);
    assert!(matches!(step.next, ChatNext::Explain { .. }));
    let step = turn.on_explanation(&Generation::Text("Your EMI is 1.".to_string()), &None, &None);
    assert_eq!(step.emit, vec!["Your EMI is 1."]);
    assert!(matches!(step.next, ChatNext::Finish));
}

#[test]
fn a_refused_tool_is_retried_twice_then_explained() {
    let (mut turn, _) = ChatTurn::start("budget".to_string(), Vec::new(), String::new(), 0);
    turn.on_context("", "", &VisionOutcome::Extracted(String::new()));
    turn.on_reply(&Generation::Text(" {\"tool_call\":1} ".to_string()), &typed_tool("generate_budget", "{}"), &None);
    let refused = ToolOutcome::Refused {
        error_summary: "Validation failed before execution.".to_string(),
        remediation: "Give me your income.".to_string(),
        report_json: "{\"status\":\"error\"}".to_string(),
    };
    let step = turn.on_tool(&refused);
    assert!(step.emit.is_empty());
    match step.next {
        ChatNext::Retry { prompt } => {
            assert!(prompt.contains("<|im_start|>assistant\n{\"tool_call\":1}\n<|im_end|>\n<|im_start|>tool\n{\"status\":\"error\"}\n<|im_end|>\n"));
            assert!(prompt.ends_with("The previous tool call failed validation: Validation failed before execution.. Please provide the required sub-fields and re-issue the tool call in valid JSON format.<|im_end|>\n<|im_start|>assistant\n"));
        }
        _ => panic!("expected a retry"),
    }
    assert_eq!(turn.retries_left, 1);
    turn.on_retry(&Generation::Text("again".to_string()), &typed_tool("generate_budget", "{}"), &None);
    let step = turn.on_tool(&refused);
    assert!(matches!(step.next, ChatNext::Retry { .. }));
    assert_eq!(turn.retry_history.len(), 2);
    let step = turn.on_tool(&refused);
    assert_eq!(step.emit, vec!["I was trying to run the calculations for you, but I'm missing a few exact details. Give me your income."]);
    assert!(matches!(step.next, ChatNext::Finish));
}

#[test]
fn generation_failures_end_the_turn() {
    let (mut turn, _) = ChatTurn::start("hi".to_string(), Vec::new(), String::new(), 1);
    let step = turn.on_reply(&Generation::TokenError, &None, &None);
    assert_eq!(step.emit, vec!["I ran into a connection glitch while processing your files. Could you try asking once more?"]);
    let step = turn.on_reply(&Generation::EngineError, &None, &None);
    assert_eq!(step.emit, vec!["I'm having trouble processing that prompt. Please give me a moment and try again."]);
    let step = turn.on_retry(&Generation::EngineError, &None, &None);
    assert_eq!(step.emit, vec!["I couldn't complete that calculation. Mind double-checking the figures so we can try again?"]);
    let step = turn.on_explanation(&Generation::EngineError, &None, &None);
    assert_eq!(step.emit, vec!["I've calculated your financial details above, but ran into an error formatting the response text."]);
}
