use std::time::Duration;

use llmfleet::{resolve_reply, BackendError, BatchResults, DispatchStats, RoutingPolicy};
use serde_json::Value;

#[test]
fn errors_as_text() {
    let text = || "boom".to_string();
    assert_eq!(BackendError::Transport(text()).to_string(), "backend transport error: boom");
    assert_eq!(BackendError::Provider(text()).to_string(), "provider error: boom");
    assert_eq!(BackendError::Other(text()).to_string(), "backend error: boom");
    assert_eq!(BackendError::Other(String::new()).to_string(), "backend error: ");
}

#[test]
fn the_preset_policy() {
    for policy in [RoutingPolicy::default(), RoutingPolicy::cost_aware()] {
        assert_eq!(policy.sync_max_latency_ms, 5_000);
        assert_eq!(policy.batch_window, Duration::from_secs(30));
        assert_eq!(policy.batch_min_size, 1);
        assert_eq!(policy.batch_max_size, 100);
    }
}

#[test]
fn counters_wrap_around() {
    let mut stats = DispatchStats::default();
    assert_eq!(stats.snapshot(), (0, 0, 0, 0));
    stats.record_sync(false);
    stats.record_sync(true);
    stats.record_batch(7, false);
    stats.record_batch(9, true);
    assert_eq!(stats.snapshot(), (2, 16, 2, 2));
    stats.batched_calls = usize::MAX;
    stats.record_batch(3, false);
    assert_eq!(stats.snapshot(), (2, 2, 3, 2));
}

#[test]
fn results_are_taken_out_once() {
    let mut results = BatchResults::new();
    let id = "a".to_string();
    assert!(results.remove(&id).is_none());
    results.insert(id.clone(), Ok(Value::from(1)));
    results.insert("b".to_string(), Err(BackendError::Provider("no".to_string())));
    assert_eq!(results.remove(&id).unwrap().unwrap(), 1);
    assert!(results.remove(&id).is_none());
    match results.remove(&"b".to_string()) {
        Some(Err(BackendError::Provider(text))) => assert_eq!(text, "no"),
        _ => panic!("b has failed"),
    }
}

#[test]
fn replies_resolve() {
    assert_eq!(resolve_reply(Some(Ok(Value::from(5)))).unwrap(), 5);
    match resolve_reply(None) {
        Err(BackendError::Other(text)) => assert_eq!(text, "dispatcher dropped result"),
        _ => panic!("nobody replied"),
    }
}
