use rust_llm_runner::model_key::ModelKey;
use rust_llm_runner::residency::{AcquireStep, LoadError, ResidencyCache};

fn key(s: &str) -> ModelKey {
    ModelKey::parse(s)
}

fn names(cache: &ResidencyCache<u32>) -> Vec<String> {
    cache.list_resident().iter().map(|k| k.joined()).collect()
}

fn load(cache: &mut ResidencyCache<u32>, k: &ModelKey, handle: u32) {
    assert!(matches!(cache.acquire(k), AcquireStep::Load));
    assert!(cache.finish_load(k, Ok(handle), 1).is_ok());
}

#[test]
fn eviction_takes_least_recently_acquired() {
    let mut cache: ResidencyCache<u32> = ResidencyCache::new(2);
    let a = key("a:latest");
    let b = key("b:latest");
    let c = key("c:latest");
    load(&mut cache, &a, 1);
    cache.end_session(&a);
    load(&mut cache, &b, 2);
    cache.end_session(&b);
    assert_eq!(cache.resident_count(), 2);
    assert!(matches!(cache.acquire(&c), AcquireStep::Load));
    let evicted = match cache.finish_load(&c, Ok(3), 2) {
        Ok(ev) => ev,
        Err(_) => panic!("load failed"),
    };
    assert_eq!(evicted.len(), 1);
    assert_eq!(evicted[0].joined(), "a:latest");
    assert_eq!(cache.resident_count(), 2);
    assert_eq!(names(&cache), vec!["b:latest".to_string(), "c:latest".to_string()]);
    assert_eq!(cache.handle(&c), Some(&3));
}

#[test]
fn reacquire_refreshes_recency() {
    let mut cache: ResidencyCache<u32> = ResidencyCache::new(2);
    let a = key("a");
    let b = key("b");
    let c = key("c");
    load(&mut cache, &a, 1);
    cache.end_session(&a);
    load(&mut cache, &b, 2);
    cache.end_session(&b);
    assert!(matches!(cache.acquire(&a), AcquireStep::Ready));
    cache.end_session(&a);
    assert!(matches!(cache.acquire(&c), AcquireStep::Load));
    let evicted = match cache.finish_load(&c, Ok(3), 2) {
        Ok(ev) => ev,
        Err(_) => panic!("load failed"),
    };
    assert_eq!(evicted[0].joined(), "b:latest");
    assert_eq!(names(&cache), vec!["a:latest".to_string(), "c:latest".to_string()]);
}

#[test]
fn concurrent_acquires_share_one_load() {
    let mut cache: ResidencyCache<u32> = ResidencyCache::new(3);
    let a = key("llama3:8b");
    assert!(matches!(cache.acquire(&a), AcquireStep::Load));
    assert!(cache.is_loading(&a));
    assert!(matches!(cache.acquire(&a), AcquireStep::Wait));
    assert!(matches!(cache.acquire(&key("llama3:8b")), AcquireStep::Wait));
    assert!(cache.finish_load(&a, Ok(7), 5).is_ok());
    assert!(!cache.is_loading(&a));
    assert_eq!(cache.sessions(&a), Some(3));
    assert!(matches!(cache.acquire(&a), AcquireStep::Ready));
    assert_eq!(cache.handle(&a), Some(&7));
    assert_eq!(cache.sessions(&a), Some(4));
}

#[test]
fn failed_load_is_not_cached() {
    let mut cache: ResidencyCache<u32> = ResidencyCache::new(2);
    let a = key("missing");
    assert!(matches!(cache.acquire(&a), AcquireStep::Load));
    assert!(matches!(cache.acquire(&a), AcquireStep::Wait));
    match cache.finish_load(&a, Err(LoadError::ModelNotFound("missing:latest".to_string())), 1) {
        Err(LoadError::ModelNotFound(m)) => assert_eq!(m, "missing:latest"),
        _ => panic!("expected the same failure back"),
    }
    assert_eq!(cache.resident_count(), 0);
    assert!(!cache.is_loading(&a));
    assert!(matches!(cache.acquire(&a), AcquireStep::Load));
}

#[test]
fn busy_models_are_never_evicted() {
    let mut cache: ResidencyCache<u32> = ResidencyCache::new(1);
    let a = key("a");
    let b = key("b");
    load(&mut cache, &a, 1);
    load(&mut cache, &b, 2);
    assert_eq!(cache.resident_count(), 2);
    assert_eq!(cache.sessions(&a), Some(1));
    let evicted = cache.end_session(&a);
    assert_eq!(evicted.len(), 1);
    assert_eq!(evicted[0].joined(), "a:latest");
    assert_eq!(names(&cache), vec!["b:latest".to_string()]);
}

#[test]
fn release_only_unloads_idle_models() {
    let mut cache: ResidencyCache<u32> = ResidencyCache::new(2);
    let a = key("a");
    load(&mut cache, &a, 1);
    assert!(!cache.release(&a));
    assert_eq!(cache.resident_count(), 1);
    assert_eq!(cache.end_session(&a).len(), 0);
    assert!(cache.release(&a));
    assert_eq!(cache.resident_count(), 0);
    assert!(!cache.release(&a));
    assert_eq!(cache.max_resident(), 2);
}

#[test]
fn zero_capacity_keeps_only_models_in_use() {
    let mut cache: ResidencyCache<u32> = ResidencyCache::new(0);
    let a = key("a");
    load(&mut cache, &a, 1);
    assert_eq!(cache.resident_count(), 1);
    let evicted = cache.end_session(&a);
    assert_eq!(evicted.len(), 1);
    assert_eq!(cache.resident_count(), 0);
    assert!(cache.handle(&a).is_none());
}
