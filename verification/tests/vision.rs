use fintally::chat::vision::{
    check_attachment_count, combine_extractions, dummy_png_bytes, empty_input_error, filter_and_ensure_jpeg, is_jpeg,
    transcode_fallback_dummy, sanitize_ocr_text, DocumentInput,
    VisionChatbotService,
};

#[test]
fn services_know_their_model_directory() {
    assert_eq!(VisionChatbotService::new().model_dir, None);
    assert_eq!(VisionChatbotService::with_model_dir("/models/ocr".to_string()).model_dir, Some("/models/ocr".to_string()));
}

#[test]
fn ocr_text_is_tidied() {
    assert_eq!(sanitize_ocr_text("  Total:  \r\n\u{FB01}nal   \n\n"), "Total:\nfinal");
    assert_eq!(sanitize_ocr_text("\u{FF21}\u{FF22}"), "AB");
}

#[test]
fn extractions_are_numbered() {
    let texts = vec!["  first page ".to_string(), "second".to_string()];
    assert_eq!(
        combine_extractions(&texts),
        "--- FILE #1 EXTRACTED CONTEXT ---\nfirst page\n\n--- FILE #2 EXTRACTED CONTEXT ---\nsecond"
    );
    assert_eq!(combine_extractions(&Vec::new()), "");
    assert_eq!(check_attachment_count(4), Err("A maximum of 3 files can be processed at once.".to_string()));
    assert_eq!(check_attachment_count(3), Ok(()));
}

#[test]
fn inputs_are_checked() {
    assert!(is_jpeg(&[0xFF, 0xD8, 0xFF, 0x00]));
    assert!(!is_jpeg(&[0xFF, 0xD8]));
    assert_eq!(DocumentInput::PdfDocumentBytes(vec![1]).default_channels(), 4);
    assert_eq!(DocumentInput::RawImageBytes(vec![1]).default_channels(), 3);
    assert_eq!(empty_input_error(&DocumentInput::FinancialChartBytes(Vec::new())), Some("Provided financial chart byte buffer is empty".to_string()));
    assert_eq!(empty_input_error(&DocumentInput::RawImageBytes(vec![1])), None);
}

#[test]
fn jpeg_input_passes_unchanged() {
    let bytes = vec![0xFF, 0xD8, 0xFF, 0xE0, 0x00, 0x10];
    assert_eq!(filter_and_ensure_jpeg(&bytes), Ok(bytes.clone()));
}

#[test]
fn png_input_is_reencoded_as_jpeg() {
    let png = dummy_png_bytes();
    assert_eq!(png.len(), 67);
    let out = filter_and_ensure_jpeg(&png).unwrap();
    assert!(is_jpeg(&out));
    assert_ne!(out, png);
}

#[test]
fn unreadable_input_falls_back_to_the_embedded_image() {
    let fallback = transcode_fallback_dummy().unwrap();
    assert!(is_jpeg(&fallback));
    assert_eq!(filter_and_ensure_jpeg(&[]), Ok(fallback.clone()));
    assert_eq!(filter_and_ensure_jpeg(&[1, 2, 3, 4, 5]), Ok(fallback));
}
