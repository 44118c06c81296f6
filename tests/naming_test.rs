use rust_llm_runner::model_key::{name_of, tag_of, ModelKey};
use rust_llm_runner::models::{model_file_name, ModelMetadata};

#[test]
fn parse_defaults_tag_to_latest() {
    let k = ModelKey::parse("qwen3");
    assert_eq!(k.name, "qwen3");
    assert_eq!(k.tag, "latest");
}

#[test]
fn parse_splits_name_and_tag() {
    let k = ModelKey::parse("llama4:scout");
    assert_eq!(k.name, "llama4");
    assert_eq!(k.tag, "scout");
    assert_eq!(k.joined(), "llama4:scout");
}

#[test]
fn parse_replaces_path_separators() {
    let k = ModelKey::parse("bartowski/gemma\\x:27b");
    assert_eq!(k.name, "bartowski_gemma_x");
    assert_eq!(k.tag, "27b");
}

#[test]
fn parse_takes_second_segment_as_tag() {
    let k = ModelKey::parse("a:b:c");
    assert_eq!(k.tag, "b");
    let e = ModelKey::parse("a:");
    assert_eq!(e.tag, "");
    assert_eq!(name_of("x/y:z"), "x/y");
    assert_eq!(tag_of("x/y"), "latest");
}

#[test]
fn keys_compare_by_name_and_tag() {
    assert!(ModelKey::parse("a").same_as(&ModelKey::parse("a:latest")));
    assert!(!ModelKey::parse("a:1").same_as(&ModelKey::parse("A:1")));
}

#[test]
fn pulled_metadata_and_file_name() {
    let k = ModelKey::parse("owner/repo:q4");
    assert_eq!(model_file_name(&k), "owner_repo_q4.gguf");
    let m = ModelMetadata::pulled(&k, 42, "1234", "/m/owner_repo_q4.gguf".to_string(), 99);
    assert_eq!(m.catalog_key(), "owner_repo:q4");
    assert_eq!(m.digest, "sha256:1234");
    assert_eq!(m.family, "owner_repo");
    assert_eq!(m.parameter_size, "q4");
    assert_eq!(m.quantization_level, "Q4_K_M");
    assert_eq!(m.created_at, 99);
    assert_eq!(m.created_text(), "1970-01-01 00:01:39");
    assert_eq!(m.modified_text(), "1970-01-01 00:01:39");
    let d = m.details();
    assert_eq!(d.format, "gguf");
}
