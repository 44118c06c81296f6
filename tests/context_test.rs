use rust_llm_runner::context::ContextManager;

#[test]
fn window_keeps_most_recent_tokens() {
    let mut store = ContextManager::new(3);
    store.save_context("s1", vec![1, 2, 3, 4, 5]);
    assert_eq!(store.get_context("s1"), Some(vec![3, 4, 5]));
}

#[test]
fn short_context_is_kept_whole() {
    let mut store = ContextManager::new(4);
    store.save_context("s1", vec![7, 8]);
    assert_eq!(store.get_context("s1"), Some(vec![7, 8]));
    store.save_context("s1", vec![1, 2, 3, 4]);
    assert_eq!(store.get_context("s1"), Some(vec![1, 2, 3, 4]));
    assert_eq!(store.max_context_size(), 4);
}

#[test]
fn sessions_are_independent_and_clearable() {
    let mut store = ContextManager::new(2);
    assert_eq!(store.get_context("a"), None);
    store.save_context("a", vec![1]);
    store.save_context("b", vec![2, 3, 4]);
    assert_eq!(store.get_context("a"), Some(vec![1]));
    assert_eq!(store.get_context("b"), Some(vec![3, 4]));
    store.clear_context("a");
    assert_eq!(store.get_context("a"), None);
    assert_eq!(store.get_context("b"), Some(vec![3, 4]));
    store.clear_all();
    assert_eq!(store.get_context("b"), None);
}

#[test]
fn zero_capacity_stores_empty_context() {
    let mut store = ContextManager::new(0);
    store.save_context("s", vec![1, 2]);
    assert_eq!(store.get_context("s"), Some(vec![]));
}
