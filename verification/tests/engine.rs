use fintally::llm::engine::TokenOutputStream;
use fintally::errors::AppError;
use fintally::llm::engine::{
    format_chatml_prompt, is_stop_token, prefill_tiles, push_recent, truncate_prompt_tokens, DecodeProgress,
};

#[test]
fn prompts_are_framed_in_chatml() {
    assert_eq!(
        format_chatml_prompt("  hello  "),
        "<|im_start|>system\nYou are a helpful, concise AI assistant.<|im_end|>\n<|im_start|>user\nhello<|im_end|>\n<|im_start|>assistant\n"
    );
    let framed = "<|im_start|>user\nx<|im_end|>\n";
    assert_eq!(format_chatml_prompt(framed), framed);
}

#[test]
fn prompt_tokens_keep_the_last_4096() {
    assert!(matches!(truncate_prompt_tokens(&Vec::new()), Err(AppError::InferenceError(m)) if m == "Prompt cannot be empty"));
    let long: Vec<u32> = (0..5000).collect();
    let kept = truncate_prompt_tokens(&long).unwrap();
    assert_eq!(kept.len(), 4096);
    assert_eq!(kept[0], 904);
    assert_eq!(truncate_prompt_tokens(&vec![1, 2]).unwrap(), vec![1, 2]);
}

#[test]
fn prefill_runs_in_tiles_of_1024() {
    assert_eq!(prefill_tiles(0), vec![]);
    assert_eq!(prefill_tiles(2500), vec![(0, 1024), (1024, 1024), (2048, 452)]);
    assert_eq!(prefill_tiles(2048), vec![(0, 1024), (1024, 1024)]);
}

#[test]
fn the_repetition_window_holds_the_last_64_tokens() {
    let mut w: Vec<u32> = Vec::new();
    for t in 0..100u32 {
        push_recent(&mut w, t);
    }
    assert_eq!(w, (36..100).collect::<Vec<u32>>());
    assert!(is_stop_token(&vec![151643, 151645], 151645));
    assert!(!is_stop_token(&vec![151643], 7));
}

#[test]
fn decoded_text_is_handed_out_incrementally() {
    let mut s = DecodeProgress::new();
    assert_eq!(s.handed_out_range(), None);
    s.push_token(10);
    assert_eq!(s.next_text("", "Hel"), Some("Hel".to_string()));
    assert_eq!((s.prev_index, s.current_index), (0, 1));
    s.push_token(11);
    // an incomplete character is held back
    assert_eq!(s.next_text("Hel", "Hel\u{FFFD}"), None);
    s.push_token(12);
    assert_eq!(s.next_text("Hel", "Hel\u{20b9}"), Some("\u{20b9}".to_string()));
    assert_eq!((s.prev_index, s.current_index), (1, 3));
    assert_eq!(s.rest_text("\u{20b9}", "\u{20b9}!"), Some("!".to_string()));
    assert_eq!(s.rest_text("ab", "ab"), None);
}

fn word_tokenizer() -> tokenizers::Tokenizer {
    let json = r#"{"version":"1.0","truncation":null,"padding":null,"added_tokens":[],"normalizer":null,"pre_tokenizer":null,"post_processor":null,"decoder":null,"model":{"type":"WordLevel","vocab":{"hello":0,"world":1,"[UNK]":2},"unk_token":"[UNK]"}}"#;
    json.parse::<tokenizers::Tokenizer>().unwrap()
}

#[test]
fn generated_tokens_are_handed_out_as_text() {
    let mut d = TokenOutputStream::new(word_tokenizer());
    assert_eq!(d.next_token(0).unwrap(), Some("hello".to_string()));
    assert_eq!(d.next_token(1).unwrap(), Some(" world".to_string()));
    assert_eq!(d.decode_rest().unwrap(), None);
}

#[test]
fn the_rest_is_handed_out_at_the_end() {
    let d = TokenOutputStream::new(word_tokenizer());
    assert_eq!(d.decode_rest().unwrap(), None);
}
