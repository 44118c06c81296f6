use rust_llm_runner::api::{build_prompt, chat_completion, completion_chunk, word_count, ChatMessage, ShowResponse, Usage};
use rust_llm_runner::checksum::{digest_matches, verify_checksum};
use rust_llm_runner::inference::{extend_context, serve_error_from_load, ServeError};
use rust_llm_runner::models::ModelMetadata;
use rust_llm_runner::residency::LoadError;
use rust_llm_runner::tokenizer::Tokenizer;

#[test]
fn tokenizer_encodes_positions() {
    let t = Tokenizer::new(2);
    assert_eq!(t.encode("abc"), vec![0, 1, 0]);
    assert_eq!(t.encode(""), Vec::<i32>::new());
    assert_eq!(t.decode(&[1, 2, 3]), "Decoded 3 tokens");
    assert_eq!(t.decode(&[]), "Decoded 0 tokens");
    let d = Tokenizer::default();
    assert_eq!(d.encode("héllo"), vec![0, 1, 2, 3, 4]);
    assert_eq!(d.decode(&vec![0; 1234]), "Decoded 1234 tokens");
}

#[test]
fn checksum_of_known_input() {
    let abc = "ba7816bf8f01cfea414140de5dae2223b00361a396177a9cb410ff61f20015ad";
    assert!(verify_checksum(b"abc", abc));
    assert!(!verify_checksum(b"abd", abc));
    assert!(!verify_checksum(b"abc", "abc"));
    assert!(digest_matches("ab", "ab"));
    assert!(!digest_matches("ab", "AB"));
}

#[test]
fn prompt_and_usage() {
    let msgs = vec![
        ChatMessage { role: "system".to_string(), content: "Be brief.".to_string() },
        ChatMessage { role: "user".to_string(), content: "Hello".to_string() },
    ];
    let p = build_prompt(&msgs);
    assert_eq!(p, "system: Be brief.\nuser: Hello");
    assert_eq!(build_prompt(&vec![]), "");
    assert_eq!(word_count(&p), 5);
    assert_eq!(word_count("  a\tb\u{3000}c  "), 3);
    let u = Usage::of_texts(&p, 4).unwrap();
    assert_eq!((u.prompt_tokens, u.completion_tokens, u.total_tokens), (5, 4, 9));
    assert!(Usage::of_texts("a b", usize::MAX).is_none());
}

#[test]
fn response_shapes() {
    let r = chat_completion("id1".to_string(), 7, "m".to_string(), "hi".to_string(), Usage::new(1, 1));
    assert_eq!(r.object, "chat.completion");
    assert_eq!(r.choices.len(), 1);
    assert_eq!(r.choices[0].message.role, "assistant");
    assert_eq!(r.choices[0].finish_reason, "stop");
    assert_eq!(r.usage.total_tokens, 2);
    let c = completion_chunk("id1".to_string(), 7, "m".to_string(), None, Some("stop".to_string()));
    assert_eq!(c.object, "chat.completion.chunk");
    assert_eq!(c.choices[0].finish_reason, Some("stop".to_string()));
    assert!(c.choices[0].delta.content.is_none());
    let m = ModelMetadata::pulled(
        &rust_llm_runner::model_key::ModelKey::parse("a:b"),
        1,
        "d",
        "/p/a_b.gguf".to_string(),
        0,
    );
    let s = ShowResponse::for_model(&m.path, m.details());
    assert_eq!(s.modelfile, "FROM /p/a_b.gguf\nPARAMETER temperature 0.8");
    assert_eq!(s.parameters, "temperature 0.8\ntop_p 0.95");
}

#[test]
fn context_is_carried_forward() {
    assert_eq!(extend_context(Some(vec![1, 2]), &vec![3]), vec![1, 2, 3]);
    assert_eq!(extend_context(None, &vec![4, 5]), vec![4, 5]);
}

#[test]
fn load_errors_pass_through() {
    assert!(matches!(
        serve_error_from_load(LoadError::ModelNotFound("x".to_string())),
        ServeError::ModelNotFound(ref m) if m == "x"
    ));
    assert!(matches!(
        serve_error_from_load(LoadError::LoadFailure("y".to_string())),
        ServeError::LoadFailure(ref m) if m == "y"
    ));
}
