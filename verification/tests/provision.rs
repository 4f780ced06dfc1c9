use fintally::server::provision::{
    access_token, after_failure, backoff_ms_from, first_missing_file, max_retries_from, select_optimal_qwen_model, validate_output_roots,
    validate_relative_repo_path, GIB,
};

#[test]
fn models_are_chosen_by_memory_and_gpu() {
    let big = select_optimal_qwen_model(Some(32 * GIB), 16 * GIB, Some(120));
    assert_eq!((big.param_size.as_str(), big.quantization.as_str()), ("7B", "Q8_0"));
    assert_eq!(big.files.len(), 3);
    let unknown_power = select_optimal_qwen_model(Some(32 * GIB), 16 * GIB, None);
    assert_eq!(unknown_power.quantization, "Q4_K_M");
    assert_eq!(unknown_power.files, vec!["qwen2.5-7b-instruct-q4_k_m-00001-of-00002.gguf", "qwen2.5-7b-instruct-q4_k_m-00002-of-00002.gguf"]);
    let mid = select_optimal_qwen_model(Some(8 * GIB), 6 * GIB, Some(80));
    assert_eq!((mid.repo_id.as_str(), mid.quantization.as_str()), ("Qwen/Qwen2.5-3B-Instruct-GGUF", "Q8_0"));
    let small = select_optimal_qwen_model(Some(8 * GIB - 1), 24 * GIB, Some(300));
    assert_eq!(small.param_size, "1.5B");
    let tiny = select_optimal_qwen_model(None, 0, None);
    assert_eq!((tiny.param_size.as_str(), tiny.files[0].as_str()), ("0.5B", "qwen2.5-0.5b-instruct-q4_k_m.gguf"));
}

#[test]
fn downloads_back_off() {
    assert_eq!(after_failure(1500, 1, 5), Some(1500));
    assert_eq!(after_failure(1500, 3, 5), Some(6000));
    assert_eq!(after_failure(1000, 9, 10), Some(32000));
    assert_eq!(after_failure(1500, 5, 5), None);
    assert_eq!(after_failure(u64::MAX / 2, 4, 5), Some(u64::MAX));
    assert_eq!(max_retries_from(None), 5);
    assert_eq!(max_retries_from(Some("0")), 5);
    assert_eq!(max_retries_from(Some("7")), 7);
    assert_eq!(backoff_ms_from(Some("x")), 1500);
    assert_eq!(backoff_ms_from(Some("250")), 250);
    assert_eq!(access_token(Some("  abc "), Some("zzz")), Some("abc".to_string()));
    assert_eq!(access_token(Some("  "), Some("zzz")), None);
    assert_eq!(access_token(None, Some("zzz")), Some("zzz".to_string()));
}

#[test]
fn repository_paths_are_checked() {
    assert_eq!(validate_relative_repo_path("1_Pooling/config.json"), Ok(()));
    assert_eq!(validate_relative_repo_path("/etc/passwd"), Err("refusing absolute repository path: /etc/passwd".to_string()));
    assert_eq!(validate_relative_repo_path("a/../../b"), Err("refusing path traversal in repository filename: a/../../b".to_string()));
    assert_eq!(validate_relative_repo_path("a/..b"), Ok(()));
    assert_eq!(validate_output_roots(), Ok(()));
}

#[test]
fn required_files_are_checked_against_the_listing() {
    let v = |xs: &[&str]| xs.iter().map(|x| x.to_string()).collect::<Vec<String>>();
    let listed = v(&["config.json", "model.gguf", "tokenizer.json"]);
    assert_eq!(first_missing_file(&v(&["model.gguf", "config.json"]), &listed), None);
    assert_eq!(first_missing_file(&v(&["model.gguf", "vocab.txt", "x.bin"]), &listed), Some(1));
    assert_eq!(first_missing_file(&Vec::new(), &Vec::new()), None);
}
