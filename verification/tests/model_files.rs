use fintally::server::model_files::{
    is_model_file_candidate,parse_shard_name, resolve_qwen_model, ModelResolveError, ResolvedModel};

fn names(v: &[&str]) -> Vec<String> {
    v.iter().map(|s| s.to_string()).collect()
}

#[test]
fn shard_names_are_split() {
    assert_eq!(
        parse_shard_name("qwen2.5-7b-instruct-q4_k_m-00001-of-00002.gguf"),
        Some(("qwen2.5-7b-instruct-q4_k_m".to_string(), 1, 2))
    );
    assert_eq!(parse_shard_name("Model-00002-OF-00003.GGUF"), Some(("model".to_string(), 2, 3)));
    assert_eq!(parse_shard_name("qwen2.5-3b-instruct-q4_k_m.gguf"), None);
    assert_eq!(parse_shard_name("a-1-of-x.gguf"), None);
}

#[test]
fn complete_shards_are_chosen_in_order() {
    let files = names(&[
        "qwen2.5-7b-instruct-q4_k_m-00002-of-00002.gguf",
        "readme.gguf",
        "qwen2.5-7b-instruct-q4_k_m-00001-of-00002.gguf",
    ]);
    match resolve_qwen_model(&files) {
        Ok(ResolvedModel::Sharded { prefix, files, display_name }) => {
            assert_eq!(prefix, "qwen2.5-7b-instruct-q4_k_m");
            assert_eq!(files, vec![2, 0]);
            assert_eq!(display_name, "qwen2.5-7b-instruct-q4_k_m.gguf (sharded)");
        }
        _ => panic!("a complete sharded model must be chosen"),
    }
}

#[test]
fn instruct_shards_are_preferred() {
    let files = names(&["zeta-00001-of-00002.gguf", "zeta-00002-of-00002.gguf", "a-instruct-00001-of-00002.gguf", "a-instruct-00002-of-00002.gguf"]);
    match resolve_qwen_model(&files) {
        Ok(ResolvedModel::Sharded { prefix, .. }) => assert_eq!(prefix, "a-instruct"),
        _ => panic!("expected a sharded model"),
    }
}

#[test]
fn incomplete_shards_fall_back_to_a_single_file() {
    let files = names(&["big-00001-of-00003.gguf", "Qwen2.5-3B-Instruct-Q4_K_M.gguf"]);
    match resolve_qwen_model(&files) {
        Ok(ResolvedModel::Single { file, display_name }) => {
            assert_eq!(file, 1);
            assert_eq!(display_name, "Qwen2.5-3B-Instruct-Q4_K_M.gguf");
        }
        _ => panic!("expected the single instruct model"),
    }
}

#[test]
fn resolution_errors() {
    assert!(matches!(resolve_qwen_model(&Vec::new()), Err(ModelResolveError::NoModelFiles)));
    assert!(matches!(resolve_qwen_model(&names(&["llama.gguf"])), Err(ModelResolveError::NoInstructModel)));
    match resolve_qwen_model(&names(&["qwen-a-instruct.gguf", "qwen-b-instruct.gguf"])) {
        Err(ModelResolveError::MultipleSingleFiles(v)) => assert_eq!(v, vec![0, 1]),
        _ => panic!("two single models must be refused"),
    }
}

#[test]
fn only_finished_gguf_files_are_candidates() {
    assert!(is_model_file_candidate("/models/qwen/qwen2.5-7b-instruct-q4_k_m.gguf"));
    assert!(is_model_file_candidate("/models/qwen/Qwen.GGUF"));
    assert!(!is_model_file_candidate("/models/qwen/tokenizer.json"));
    assert!(!is_model_file_candidate("/models/qwen/.hidden.gguf"));
    assert!(!is_model_file_candidate("/models/qwen/model.part-0001.gguf"));
    assert!(!is_model_file_candidate("/models/qwen/gguf"));
}

#[test]
fn the_largest_complete_instruct_model_is_chosen() {
    let files = names(&[
        "qwen2.5-7b-instruct-q4_k_m-00001-of-00002.gguf",
        "qwen2.5-7b-instruct-q4_k_m-00002-of-00002.gguf",
        "qwen2.5-14b-instruct-q4_k_m-00001-of-00002.gguf",
        "qwen2.5-14b-instruct-q4_k_m-00002-of-00002.gguf",
        "qwen2.5-0.5b-instruct-q8_0-00001-of-00002.gguf",
        "qwen2.5-0.5b-instruct-q8_0-00002-of-00002.gguf",
    ]);
    match resolve_qwen_model(&files) {
        Ok(ResolvedModel::Sharded { prefix, files, .. }) => {
            assert_eq!(prefix, "qwen2.5-14b-instruct-q4_k_m");
            assert_eq!(files, vec![2, 3]);
        }
        _ => panic!("the 14b model must be chosen"),
    }
    let small = names(&[
        "qwen2.5-1.5b-instruct-q8_0-00001-of-00002.gguf",
        "qwen2.5-1.5b-instruct-q8_0-00002-of-00002.gguf",
        "qwen2.5-0.5b-instruct-q8_0-00001-of-00002.gguf",
        "qwen2.5-0.5b-instruct-q8_0-00002-of-00002.gguf",
    ]);
    match resolve_qwen_model(&small) {
        Ok(ResolvedModel::Sharded { prefix, .. }) => assert_eq!(prefix, "qwen2.5-1.5b-instruct-q8_0"),
        _ => panic!("the 1.5b model must be chosen"),
    }
}
