use rust_llm_runner::registry::{hf_repo, preferred_index, GgufFile, ModelRegistry, RegistryError};

fn url(r: &ModelRegistry, name: &str) -> Option<String> {
    r.get_huggingface_url(name, false).ok()
}

#[test]
fn known_families_resolve_case_insensitively() {
    let r = ModelRegistry::new();
    assert_eq!(
        url(&r, "Llama3:8b").unwrap(),
        "https://huggingface.co/QuantFactory/Meta-Llama-3.1-8B-Instruct-GGUF/resolve/main/Meta-Llama-3.1-8B-Instruct.Q4_K_M.gguf"
    );
    assert_eq!(
        url(&r, "QWEN3").unwrap(),
        "https://huggingface.co/Qwen/Qwen3-8B-GGUF/resolve/main/qwen3-8b-q4_k_m.gguf"
    );
    assert_eq!(
        url(&r, "gemma3:27b").unwrap(),
        "https://huggingface.co/bartowski/google_gemma-3-27b-it-GGUF/resolve/main/google_gemma-3-27b-it-Q4_K_M.gguf"
    );
    assert_eq!(
        url(&r, "gemma3").unwrap(),
        "https://huggingface.co/bartowski/gemma-3-12b-it-GGUF/resolve/main/gemma-3-12b-it-Q4_K_M.gguf"
    );
}

#[test]
fn repository_paths_become_hf_locations() {
    let r = ModelRegistry::default();
    assert_eq!(url(&r, "bartowski/gemma-3-27b-it-GGUF").unwrap(), "hf://bartowski/gemma-3-27b-it-GGUF");
    assert_eq!(url(&r, "owner/repo").unwrap(), "hf://owner/repo-GGUF");
    assert_eq!(hf_repo("hf://owner/repo-GGUF"), Some("owner/repo-GGUF".to_string()));
    assert_eq!(hf_repo("https://x"), None);
}

#[test]
fn local_gguf_file_is_used_as_is() {
    let r = ModelRegistry::new();
    assert_eq!(r.get_huggingface_url("/tmp/My.GGUF", true).ok(), Some("/tmp/My.GGUF".to_string()));
    assert!(r.get_huggingface_url("/tmp/My.GGUF", false).is_ok());
}

#[test]
fn unknown_model_is_an_error() {
    let r = ModelRegistry::new();
    match r.get_huggingface_url("nothing", false) {
        Err(RegistryError::UnknownModel(m)) => assert!(m.starts_with("Unknown model: nothing. Supported")),
        _ => panic!("expected an error"),
    }
    assert!(r.get_model_info("nothing", false).is_err());
}

#[test]
fn model_info_has_one_download() {
    let r = ModelRegistry::new();
    let m = match r.get_model_info("mistral:7b", false) {
        Ok(m) => m,
        Err(_) => panic!("expected info"),
    };
    assert_eq!(m.name, "mistral");
    assert_eq!(m.tags, vec!["7b".to_string()]);
    assert_eq!(m.description, "mistral model");
    assert_eq!(m.downloads.len(), 1);
    assert_eq!(m.downloads[0].0, "7b");
    assert_eq!(m.downloads[0].1.format, "gguf");
    assert!(m.downloads[0].1.url.contains("Mistral-7B"));
}

#[test]
fn gguf_listing_and_preference() {
    let r = ModelRegistry::new();
    let listing = vec![
        ("README.md".to_string(), Some(10)),
        ("m-Q8_0.gguf".to_string(), Some(8)),
        ("m-Q4_K_M.GGUF".to_string(), None),
    ];
    let files = r.discover_gguf_files("o/m", &listing);
    assert_eq!(files.len(), 2);
    assert_eq!(files[0].url, "https://huggingface.co/o/m/resolve/main/m-Q8_0.gguf");
    assert_eq!(files[1].size, 0);
    match r.get_best_gguf_url("o/m", &files) {
        Ok(f) => assert_eq!(f.path, "m-Q4_K_M.GGUF"),
        Err(_) => panic!("expected a file"),
    }
    let odd = vec![GgufFile { path: "a.gguf".to_string(), url: "u".to_string(), size: 1 }];
    match r.get_best_gguf_url("o/m", &odd) {
        Ok(f) => assert_eq!(f.path, "a.gguf"),
        Err(_) => panic!("expected a file"),
    }
    assert!(matches!(r.get_best_gguf_url("o/m", &vec![]), Err(RegistryError::NoGgufFiles(_))));
}

#[test]
fn lowered_name_decides_the_family() {
    let r = ModelRegistry::new();
    assert_eq!(
        r.url_for_lowered("Phi", "phi", "latest", false),
        Some("https://huggingface.co/microsoft/Phi-3-mini-4k-instruct-gguf/resolve/main/Phi-3-mini-4k-instruct-q4.gguf".to_string())
    );
    assert_eq!(r.url_for_lowered("Phi", "Phi", "latest", false), None);
    assert_eq!(r.url_for_lowered("a.gguf", "a.gguf", "latest", true), Some("a.gguf".to_string()));
    assert_eq!(r.url_for_lowered("x/Y", "x/y-gguf", "latest", false), Some("hf://x/Y".to_string()));
}

#[test]
fn preference_order_of_quantisations() {
    let names = vec!["m-f16.gguf".to_string(), "m-q8_0.gguf".to_string(), "m-q5_k_s.gguf".to_string()];
    assert_eq!(preferred_index(&names), 2);
    let none = vec!["a.gguf".to_string(), "b.gguf".to_string()];
    assert_eq!(preferred_index(&none), 0);
    let first = vec!["x-q4_k_m.gguf".to_string(), "y-q4_k_m.gguf".to_string()];
    assert_eq!(preferred_index(&first), 0);
}
