use rust_llm_runner::inference::{blocking_result, ServeError};
use rust_llm_runner::session::{
    BackendEvent, FinishReason, GenerationEvent, GenerationSession, Phase, SessionAction,
};

fn piece(t: &str, token: i32) -> BackendEvent {
    BackendEvent::Piece { text: t.to_string(), token }
}

#[test]
fn budget_ends_with_length_after_exact_fragments() {
    let mut s = GenerationSession::new(5, &vec![]);
    let mut fragments = 0;
    let mut terminals = Vec::new();
    for step in 0..20 {
        match s.advance() {
            SessionAction::Decode => match s.on_backend(piece("x", step)) {
                Some(GenerationEvent::Fragment(_)) => {
                    fragments += 1;
                    s.on_delivery(true);
                }
                Some(GenerationEvent::Finished { reason, tokens_generated }) => {
                    terminals.push((reason, tokens_generated))
                }
                None => panic!("a decode step always yields an event"),
            },
            SessionAction::Emit(GenerationEvent::Finished { reason, tokens_generated }) => {
                terminals.push((reason, tokens_generated))
            }
            SessionAction::Emit(GenerationEvent::Fragment(_)) => panic!("unexpected fragment"),
            SessionAction::Halt => break,
        }
    }
    assert_eq!(fragments, 5);
    assert_eq!(terminals, vec![(FinishReason::Length, 5)]);
    assert_eq!(s.phase(), Phase::Finished);
    assert_eq!(s.text(), "xxxxx");
    assert_eq!(s.tokens(), &vec![0, 1, 2, 3, 4]);
}

#[test]
fn end_of_sequence_finishes_with_stop() {
    let mut s = GenerationSession::new(10, &vec![]);
    assert!(matches!(s.advance(), SessionAction::Decode));
    assert!(matches!(s.on_backend(piece("Hi", 1)), Some(GenerationEvent::Fragment(ref t)) if t == "Hi"));
    assert!(matches!(s.advance(), SessionAction::Decode));
    match s.on_backend(BackendEvent::EndOfSequence) {
        Some(GenerationEvent::Finished { reason, tokens_generated }) => {
            assert_eq!(reason, FinishReason::Stop);
            assert_eq!(tokens_generated, 1);
        }
        _ => panic!("expected the terminal event"),
    }
    assert!(matches!(s.advance(), SessionAction::Halt));
    assert!(s.on_backend(piece("late", 2)).is_none());
    match blocking_result(&s) {
        Ok(r) => {
            assert_eq!(r.text, "Hi");
            assert_eq!(r.tokens_generated, 1);
            assert_eq!(r.context, vec![1]);
        }
        Err(_) => panic!("expected a response"),
    }
}

#[test]
fn backend_failure_ends_with_error() {
    let mut s = GenerationSession::new(10, &vec![]);
    assert!(matches!(s.advance(), SessionAction::Decode));
    assert!(s.on_backend(piece("partial", 1)).is_some());
    match s.on_backend(BackendEvent::Failed("decode failed".to_string())) {
        Some(GenerationEvent::Finished { reason, tokens_generated }) => {
            assert_eq!(reason, FinishReason::Error);
            assert_eq!(tokens_generated, 1);
        }
        _ => panic!("expected the terminal event"),
    }
    assert!(matches!(s.advance(), SessionAction::Halt));
    match blocking_result(&s) {
        Err(ServeError::GenerationFailure(m)) => assert_eq!(m, "decode failed"),
        _ => panic!("expected a generation failure"),
    }
}

#[test]
fn dropped_consumer_stops_decoding() {
    let mut s = GenerationSession::new(100, &vec![]);
    assert!(matches!(s.advance(), SessionAction::Decode));
    assert!(s.on_backend(piece("a", 1)).is_some());
    s.on_delivery(false);
    assert_eq!(s.phase(), Phase::Cancelled);
    assert!(matches!(s.advance(), SessionAction::Halt));
    assert!(s.on_backend(piece("b", 2)).is_none());
    assert!(matches!(s.advance(), SessionAction::Halt));
}

#[test]
fn stop_sequence_across_fragments() {
    let stops = vec!["END".to_string()];
    let mut s = GenerationSession::new(100, &stops);
    assert!(matches!(s.on_backend(piece("abc E", 1)), Some(GenerationEvent::Fragment(_))));
    match s.on_backend(piece("ND more", 2)) {
        Some(GenerationEvent::Finished { reason, tokens_generated }) => {
            assert_eq!(reason, FinishReason::Stop);
            assert_eq!(tokens_generated, 1);
        }
        _ => panic!("expected the stop"),
    }
    assert_eq!(s.text(), "abc E");
}

#[test]
fn zero_budget_finishes_at_once() {
    let mut s = GenerationSession::new(0, &vec![]);
    match s.advance() {
        SessionAction::Emit(GenerationEvent::Finished { reason, tokens_generated }) => {
            assert_eq!(reason, FinishReason::Length);
            assert_eq!(tokens_generated, 0);
        }
        _ => panic!("expected the terminal event"),
    }
    assert!(matches!(s.advance(), SessionAction::Halt));
}

#[test]
fn finish_reasons_have_wire_names() {
    assert_eq!(FinishReason::Stop.as_str(), "stop");
    assert_eq!(FinishReason::Length.as_str(), "length");
    assert_eq!(FinishReason::Error.as_str(), "error");
}
