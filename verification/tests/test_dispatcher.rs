use std::time::Duration;

use llmfleet::{
    resolve_reply, BackendError, BatchResults, FleetDispatcher, FlushStep, RoutingPolicy, SendStep,
    SubmitBuilder,
};
use serde_json::Value;

type Reply = Result<Value, BackendError>;

const MS: u64 = 1_000_000;

fn object(entries: Vec<(&str, Value)>) -> Value {
    let mut map = serde_json::Map::new();
    for (key, value) in entries {
        map.insert(key.to_string(), value);
    }
    Value::Object(map)
}

fn via(params: Value, route: &str) -> Value {
    object(vec![("echo", params), ("via", Value::from(route))])
}

#[derive(Default)]
struct EchoBackend {
    sync_calls: usize,
    batches: usize,
    batched_count: usize,
}

impl EchoBackend {
    fn submit_sync(&mut self, req: Value) -> Reply {
        self.sync_calls += 1;
        Ok(via(req, "sync"))
    }

    fn submit_batch(&mut self, items: Vec<(String, Value)>) -> Result<BatchResults, BackendError> {
        self.batches += 1;
        self.batched_count += items.len();
        let mut results = BatchResults::new();
        for (id, params) in items {
            results.insert(id, Ok(via(params, "batch")));
        }
        Ok(results)
    }
}

/// A fleet with its callers: what each was told stands at the caller's number.
struct Harness {
    fleet: FleetDispatcher<usize>,
    backend: EchoBackend,
    told: Vec<Option<Reply>>,
}

impl Harness {
    fn new(policy: RoutingPolicy) -> Harness {
        Harness {
            fleet: FleetDispatcher::new(policy),
            backend: EchoBackend::default(),
            told: Vec::new(),
        }
    }

    fn send(&mut self, submission: SubmitBuilder) -> usize {
        let caller = self.told.len();
        self.told.push(None);
        match submission.send(&mut self.fleet, caller) {
            SendStep::CallBackend(params) => {
                let reply = self.backend.submit_sync(params);
                self.told[caller] = Some(self.fleet.complete_sync(reply));
            }
            SendStep::Queued => {}
            SendStep::Refused(error) => self.told[caller] = Some(Err(error)),
        }
        caller
    }

    fn deliver(&mut self, deliveries: Vec<(usize, Reply)>) {
        for (caller, reply) in deliveries {
            assert!(self.told[caller].is_none(), "told twice");
            self.told[caller] = Some(reply);
        }
    }

    /// Runs the flusher at `now` until it waits or stops.
    fn flush(&mut self, now: u64) -> FlushStep<usize> {
        loop {
            match self.fleet.poll(now) {
                FlushStep::Submit(items) => {
                    let reply = self.backend.submit_batch(items);
                    let deliveries = self.fleet.complete_batch(reply);
                    self.deliver(deliveries);
                }
                FlushStep::Stop(deliveries) => {
                    self.deliver(deliveries);
                    return FlushStep::Stop(Vec::new());
                }
                waiting => return waiting,
            }
        }
    }

    fn reply(&mut self, caller: usize) -> Reply {
        resolve_reply(self.told[caller].take())
    }
}

#[test]
fn sync_routing_for_tight_latency() {
    let policy = RoutingPolicy {
        sync_max_latency_ms: 5_000,
        batch_window: Duration::from_millis(50),
        batch_min_size: 1,
        batch_max_size: 100,
    };
    let mut h = Harness::new(policy);
    let submission = h.fleet.submit(object(vec![("k", Value::from("v"))])).latency_budget_ms(1_000);
    let caller = h.send(submission);
    let r = h.reply(caller).unwrap();
    assert_eq!(r["via"], "sync");
    let (sync_calls, batched, _, errors) = h.fleet.stats().snapshot();
    assert_eq!(sync_calls, 1);
    assert_eq!(batched, 0);
    assert_eq!(errors, 0);
    h.fleet.shutdown();
    assert!(matches!(h.flush(0), FlushStep::Stop(_)));
}

#[test]
fn batch_routing_when_no_budget() {
    let policy = RoutingPolicy {
        sync_max_latency_ms: 1_000,
        batch_window: Duration::from_millis(50),
        batch_min_size: 1,
        batch_max_size: 10,
    };
    let mut h = Harness::new(policy);
    let submission = h.fleet.submit(object(vec![("k", Value::from(1))]));
    let caller = h.send(submission);
    assert!(matches!(h.flush(0), FlushStep::Wait));
    let r = h.reply(caller).unwrap();
    assert_eq!(r["via"], "batch");
    assert_eq!(r["echo"]["k"], 1);
    let (sync_calls, batched, batches, _) = h.fleet.stats().snapshot();
    assert_eq!(sync_calls, 0);
    assert_eq!(batched, 1);
    assert_eq!(batches, 1);
    h.fleet.shutdown();
    assert!(matches!(h.flush(0), FlushStep::Stop(_)));
}

#[test]
fn force_sync_overrides_no_budget() {
    let mut h = Harness::new(RoutingPolicy::default());
    let submission = h.fleet.submit(object(vec![])).sync();
    let caller = h.send(submission);
    let r = h.reply(caller).unwrap();
    assert_eq!(r["via"], "sync");
    h.fleet.shutdown();
    assert!(matches!(h.flush(0), FlushStep::Stop(_)));
}

#[test]
fn force_batch_overrides_tight_budget() {
    let policy = RoutingPolicy {
        sync_max_latency_ms: 5_000,
        batch_window: Duration::from_millis(50),
        batch_min_size: 1,
        batch_max_size: 10,
    };
    let mut h = Harness::new(policy);
    let submission = h.fleet.submit(object(vec![])).latency_budget_ms(100).batch();
    let caller = h.send(submission);
    assert!(matches!(h.flush(0), FlushStep::Wait));
    let r = h.reply(caller).unwrap();
    assert_eq!(r["via"], "batch");
    h.fleet.shutdown();
    assert!(matches!(h.flush(0), FlushStep::Stop(_)));
}

#[test]
fn concurrent_submissions_pool_into_one_batch() {
    let policy = RoutingPolicy {
        sync_max_latency_ms: 0, // never sync
        batch_window: Duration::from_millis(150),
        batch_min_size: 3,
        batch_max_size: 10,
    };
    let mut h = Harness::new(policy);
    let mut callers = Vec::new();
    for i in 1..4 {
        let submission = h.fleet.submit(object(vec![("i", Value::from(i))]));
        callers.push(h.send(submission));
        h.flush(10 * MS);
    }
    for caller in callers {
        h.reply(caller).unwrap();
    }

    let (_, batched, batches, _) = h.fleet.stats().snapshot();
    assert_eq!(batches, 1, "three concurrent submits should pool into one batch");
    assert_eq!(batched, 3);
    assert_eq!(h.backend.batches, 1);
    assert_eq!(h.backend.batched_count, 3);
    h.fleet.shutdown();
    assert!(matches!(h.flush(20 * MS), FlushStep::Stop(_)));
}

#[test]
fn reaching_min_size_flushes_before_window_expires() {
    let policy = RoutingPolicy {
        sync_max_latency_ms: 0, // never sync
        batch_window: Duration::from_secs(30),
        batch_min_size: 2,
        batch_max_size: 100,
    };
    let mut h = Harness::new(policy);
    let first = h.fleet.submit(object(vec![("i", Value::from(1))]));
    let first = h.send(first);
    match h.flush(0) {
        FlushStep::WaitFor(nanos) => assert_eq!(nanos, 30_000_000_000),
        _ => panic!("one submission is not enough for a batch"),
    }
    let second = h.fleet.submit(object(vec![("i", Value::from(2))]));
    let second = h.send(second);
    // Five seconds later the window is still open.
    assert!(matches!(h.flush(5_000 * MS), FlushStep::Wait));
    h.reply(first).unwrap();
    h.reply(second).unwrap();

    let (_, batched, batches, _) = h.fleet.stats().snapshot();
    assert_eq!(batches, 1);
    assert_eq!(batched, 2);
    h.fleet.shutdown();
    assert!(matches!(h.flush(5_000 * MS), FlushStep::Stop(_)));
}

#[test]
fn shutdown_drains_pending_results_into_errors() {
    let policy = RoutingPolicy {
        sync_max_latency_ms: 0,
        batch_window: Duration::from_millis(500),
        batch_min_size: 1,
        batch_max_size: 100,
    };
    let mut h = Harness::new(policy);
    let submission = h.fleet.submit(object(vec![("x", Value::from(1))]));
    let caller = h.send(submission);
    h.fleet.shutdown();
    assert!(matches!(h.flush(20 * MS), FlushStep::Stop(_)));
    // The caller was told something: whoever is pending at a shutdown is served.
    assert!(h.told[caller].is_some());
    assert_eq!(h.reply(caller).unwrap()["via"], "batch");
}

#[test]
fn the_window_bounds_the_wait() {
    let policy = RoutingPolicy {
        sync_max_latency_ms: 0,
        batch_window: Duration::from_millis(150),
        batch_min_size: 5,
        batch_max_size: 10,
    };
    let mut h = Harness::new(policy);
    let submission = h.fleet.submit(Value::Null);
    let caller = h.send(submission);
    match h.flush(1_000 * MS) {
        FlushStep::WaitFor(nanos) => assert_eq!(nanos, 150_000_000),
        _ => panic!("the batch has room and time"),
    }
    match h.flush(1_100 * MS) {
        FlushStep::WaitFor(nanos) => assert_eq!(nanos, 50_000_000),
        _ => panic!("the batch has room and time"),
    }
    assert!(h.told[caller].is_none());
    assert!(matches!(h.flush(1_150 * MS), FlushStep::Wait));
    assert_eq!(h.reply(caller).unwrap()["via"], "batch");
}

#[test]
fn a_message_that_was_waited_for_joins_the_batch_when_time_is_up() {
    let policy = RoutingPolicy {
        sync_max_latency_ms: 0,
        batch_window: Duration::from_millis(100),
        batch_min_size: 5,
        batch_max_size: 10,
    };
    let mut h = Harness::new(policy);
    let first = h.fleet.submit(Value::from(1));
    h.send(first);
    assert!(matches!(h.flush(0), FlushStep::WaitFor(_)));
    for i in 2..4 {
        let submission = h.fleet.submit(Value::from(i));
        h.send(submission);
    }
    match h.fleet.poll(200 * MS) {
        FlushStep::Submit(items) => {
            assert_eq!(items.len(), 2);
            assert_eq!(items[0].1, 1);
            assert_eq!(items[1].1, 2);
        }
        _ => panic!("the window is over"),
    }
    assert!(h.fleet.is_submitting());
}

#[test]
fn a_window_of_no_length_does_not_gather() {
    let policy = RoutingPolicy {
        sync_max_latency_ms: 0,
        batch_window: Duration::from_millis(0),
        batch_min_size: 5,
        batch_max_size: 10,
    };
    let mut h = Harness::new(policy);
    for i in 0..3 {
        let submission = h.fleet.submit(Value::from(i));
        h.send(submission);
    }
    assert!(matches!(h.flush(0), FlushStep::Wait));
    assert_eq!(h.fleet.stats().snapshot(), (0, 3, 3, 0));
}

#[test]
fn batches_are_capped_and_take_the_oldest() {
    let policy = RoutingPolicy {
        sync_max_latency_ms: 0,
        batch_window: Duration::from_secs(1),
        batch_min_size: 8,
        batch_max_size: 2,
    };
    let mut h = Harness::new(policy);
    for i in 0..5 {
        let submission = h.fleet.submit(Value::from(i));
        h.send(submission);
    }
    match h.fleet.poll(0) {
        FlushStep::Submit(items) => {
            assert_eq!(items.len(), 2);
            assert_eq!(items[0].1, 0);
            assert_eq!(items[1].1, 1);
            let reply = h.backend.submit_batch(items);
            let deliveries = h.fleet.complete_batch(reply);
            h.deliver(deliveries);
        }
        _ => panic!("there are enough for a batch"),
    }
    assert!(matches!(h.flush(0), FlushStep::WaitFor(1_000_000_000)));
    assert_eq!(h.fleet.stats().snapshot(), (0, 4, 2, 0));
    assert!(h.told[3].is_some());
    assert!(h.told[4].is_none());
}

#[test]
fn sizes_of_zero_still_send_one_at_a_time() {
    let policy = RoutingPolicy {
        sync_max_latency_ms: 0,
        batch_window: Duration::from_secs(1),
        batch_min_size: 0,
        batch_max_size: 0,
    };
    let mut h = Harness::new(policy);
    for i in 0..3 {
        let submission = h.fleet.submit(Value::from(i));
        h.send(submission);
    }
    assert!(matches!(h.flush(0), FlushStep::Wait));
    assert_eq!(h.fleet.stats().snapshot(), (0, 3, 3, 0));
}

#[test]
fn budgets_at_the_limit_are_sync_and_above_it_are_not() {
    let policy = RoutingPolicy::default();
    let fleet: FleetDispatcher<usize> = FleetDispatcher::new(policy);
    assert!(fleet.submit(Value::Null).latency_budget_ms(5_000).routes_sync(&policy));
    assert!(!fleet.submit(Value::Null).latency_budget_ms(5_001).routes_sync(&policy));
    assert!(!fleet.submit(Value::Null).routes_sync(&policy));
    assert!(fleet.submit(Value::Null).batch().sync().routes_sync(&policy));
    assert!(fleet.submit(Value::Null).sync().batch().routes_sync(&policy));
    assert!(!fleet.submit(Value::Null).latency_budget_ms(0).batch().routes_sync(&policy));
    assert!(fleet.submit(Value::Null).latency_budget_ms(9_000).latency_budget_ms(1).routes_sync(&policy));
}

#[test]
fn identifiers_are_hexadecimal_and_differ() {
    let policy = RoutingPolicy {
        sync_max_latency_ms: 0,
        batch_window: Duration::from_secs(1),
        batch_min_size: 2,
        batch_max_size: 2,
    };
    let mut fleet: FleetDispatcher<usize> = FleetDispatcher::new(policy);
    for caller in 0..2 {
        let submission = fleet.submit(Value::Null);
        assert!(matches!(submission.send(&mut fleet, caller), SendStep::Queued));
    }
    match fleet.poll(0) {
        FlushStep::Submit(items) => {
            assert_ne!(items[0].0, items[1].0);
            for (id, _) in items {
                assert_eq!(id.len(), 32);
                assert!(id.chars().all(|c| c.is_ascii_digit() || ('a'..='f').contains(&c)));
                assert_eq!(id.as_bytes()[12], b'4');
                assert!(b"89ab".contains(&id.as_bytes()[16]));
            }
        }
        _ => panic!("the batch is full"),
    }
}

/// A fleet whose batch of three, with the identifiers given, is with the backend.
fn submitting(ids: Vec<&str>) -> FleetDispatcher<usize> {
    let policy = RoutingPolicy {
        sync_max_latency_ms: 0,
        batch_window: Duration::from_secs(1),
        batch_min_size: 3,
        batch_max_size: 3,
    };
    let mut fleet = FleetDispatcher::new(policy);
    for (caller, id) in ids.into_iter().enumerate() {
        assert!(fleet.enqueue(id.to_string(), Value::from(caller), caller).is_ok());
    }
    assert!(matches!(fleet.poll(0), FlushStep::Submit(_)));
    fleet
}

#[test]
fn each_caller_gets_their_own_result() {
    let mut fleet = submitting(vec!["a", "b", "c"]);
    let mut results = BatchResults::new();
    results.insert("c".to_string(), Ok(Value::from("third")));
    results.insert("a".to_string(), Ok(Value::from("first")));
    results.insert("b".to_string(), Err(BackendError::Transport("reset".to_string())));
    let deliveries = fleet.complete_batch(Ok(results));
    assert_eq!(deliveries.len(), 3);
    assert_eq!(deliveries[0].0, 0);
    assert_eq!(deliveries[0].1.as_ref().unwrap(), "first");
    assert_eq!(deliveries[1].0, 1);
    match &deliveries[1].1 {
        Err(BackendError::Transport(text)) => assert_eq!(text, "reset"),
        _ => panic!("the error of the request itself is passed on"),
    }
    assert_eq!(deliveries[2].0, 2);
    assert_eq!(deliveries[2].1.as_ref().unwrap(), "third");
    // Errors of single requests are not counted.
    assert_eq!(fleet.stats().snapshot(), (0, 3, 1, 0));
    assert!(!fleet.is_submitting());
}

#[test]
fn missing_and_repeated_identifiers_have_no_result() {
    let mut fleet = submitting(vec!["a", "a", "b"]);
    let mut results = BatchResults::new();
    results.insert("a".to_string(), Ok(Value::from(1)));
    results.insert("a".to_string(), Ok(Value::from(2)));
    results.insert("unasked".to_string(), Ok(Value::from(3)));
    let deliveries = fleet.complete_batch(Ok(results));
    assert_eq!(deliveries[0].1.as_ref().unwrap(), 2);
    for delivery in &deliveries[1..] {
        match &delivery.1 {
            Err(BackendError::Other(text)) => assert_eq!(text, "no result"),
            _ => panic!("there is no result for this one"),
        }
    }
}

#[test]
fn a_failed_batch_is_reported_to_all() {
    let mut fleet = submitting(vec!["a", "b", "c"]);
    let deliveries = fleet.complete_batch(Err(BackendError::Transport("timed out".to_string())));
    assert_eq!(deliveries.len(), 3);
    for (caller, delivery) in deliveries.iter().enumerate() {
        assert_eq!(delivery.0, caller);
        match &delivery.1 {
            Err(BackendError::Provider(text)) => {
                assert_eq!(text, "backend transport error: timed out")
            }
            _ => panic!("the batch failed"),
        }
    }
    // They were routed via batch all the same.
    assert_eq!(fleet.stats().snapshot(), (0, 3, 1, 1));
}

#[test]
fn failed_sync_calls_are_counted_and_passed_on() {
    let mut fleet: FleetDispatcher<usize> = FleetDispatcher::new(RoutingPolicy::default());
    let submission = fleet.submit(Value::from("ping")).sync();
    match submission.send(&mut fleet, 0) {
        SendStep::CallBackend(params) => assert_eq!(params, "ping"),
        _ => panic!("forced to be synchronous"),
    }
    match fleet.complete_sync(Err(BackendError::Provider("overloaded".to_string()))) {
        Err(BackendError::Provider(text)) => assert_eq!(text, "overloaded"),
        _ => panic!("the outcome is passed on"),
    }
    assert_eq!(fleet.stats().snapshot(), (1, 0, 0, 1));
}

#[test]
fn submissions_after_a_shutdown_fail() {
    let policy = RoutingPolicy {
        sync_max_latency_ms: 1_000,
        batch_window: Duration::from_secs(1),
        batch_min_size: 10,
        batch_max_size: 10,
    };
    let mut h = Harness::new(policy);
    let before = h.fleet.submit(Value::from("before"));
    let before = h.send(before);
    assert!(!h.fleet.is_closing());
    h.fleet.shutdown();
    assert!(h.fleet.is_closing());

    let sync = h.fleet.submit(Value::Null).latency_budget_ms(10);
    let sync = h.send(sync);
    let pooled = h.fleet.submit(Value::Null);
    let pooled = h.send(pooled);
    h.fleet.shutdown();
    assert!(h.told[pooled].is_none());
    assert!(matches!(h.flush(0), FlushStep::Stop(_)));
    let late = h.fleet.submit(Value::Null);
    let late = h.send(late);

    assert_eq!(h.reply(before).unwrap()["echo"], "before");
    for (caller, text) in
        [(sync, "dispatcher closed"), (pooled, "dispatcher shutdown"), (late, "dispatcher closed")]
    {
        match h.reply(caller) {
            Err(BackendError::Other(told)) => assert_eq!(told, text),
            _ => panic!("the dispatcher is closed"),
        }
    }
    assert_eq!(h.backend.sync_calls, 0);
    assert_eq!(h.backend.batched_count, 1);

    // Stopped is final.
    h.fleet.shutdown();
    match h.fleet.poll(1) {
        FlushStep::Stop(deliveries) => assert!(deliveries.is_empty()),
        _ => panic!("the flusher has stopped"),
    }
}

#[test]
fn the_backend_gets_every_request_once_and_in_order() {
    let policy = RoutingPolicy {
        sync_max_latency_ms: 0,
        batch_window: Duration::from_secs(1),
        batch_min_size: 3,
        batch_max_size: 3,
    };
    let mut fleet: FleetDispatcher<usize> = FleetDispatcher::new(policy);
    for caller in 0..7 {
        assert!(fleet.enqueue(format!("id{}", caller), Value::from(caller), caller).is_ok());
    }
    fleet.shutdown();
    for caller in 7..9 {
        assert!(fleet.enqueue(format!("id{}", caller), Value::from(caller), caller).is_ok());
    }

    let mut handed = Vec::new();
    let mut sizes = Vec::new();
    let mut rounds = 0;
    let refused = loop {
        rounds += 1;
        match fleet.poll(rounds) {
            FlushStep::Submit(items) => {
                sizes.push(items.len());
                handed.extend(items);
                rounds += 1;
                // Whether the backend takes a batch does not matter.
                fleet.complete_batch(Err(BackendError::Other("busy".to_string())));
            }
            FlushStep::Stop(deliveries) => break deliveries,
            _ => panic!("a shutdown is not waited for"),
        }
    };
    assert_eq!(sizes, vec![3, 3, 1]);
    assert_eq!(handed.len(), 7);
    for (i, (id, params)) in handed.iter().enumerate() {
        assert_eq!(id, &format!("id{}", i));
        assert_eq!(params, &Value::from(i));
    }
    assert!(rounds <= 2 * 7 + 1);
    assert_eq!(refused.len(), 2);
    assert_eq!(refused[0].0, 7);
    assert_eq!(refused[1].0, 8);
    assert_eq!(fleet.stats().snapshot(), (0, 7, 3, 3));
}

#[test]
fn a_shutdown_sends_the_open_batch_out() {
    let policy = RoutingPolicy {
        sync_max_latency_ms: 0,
        batch_window: Duration::from_secs(3_600),
        batch_min_size: 4,
        batch_max_size: 4,
    };
    let mut h = Harness::new(policy);
    let mut callers = Vec::new();
    for i in 0..2 {
        let submission = h.fleet.submit(Value::from(i));
        callers.push(h.send(submission));
        assert!(matches!(h.flush(0), FlushStep::WaitFor(_)));
    }
    let third = h.fleet.submit(Value::from(2));
    callers.push(h.send(third));
    h.fleet.shutdown();
    assert!(matches!(h.flush(1), FlushStep::Stop(_)));
    for caller in callers {
        assert_eq!(h.reply(caller).unwrap()["via"], "batch");
    }
    assert_eq!(h.fleet.stats().snapshot(), (0, 3, 1, 0));
}

#[test]
fn giving_the_flusher_up_accounts_for_everybody() {
    let policy = RoutingPolicy {
        sync_max_latency_ms: 0,
        batch_window: Duration::from_secs(1),
        batch_min_size: 2,
        batch_max_size: 2,
    };
    let mut h = Harness::new(policy);
    for i in 0..5 {
        let submission = h.fleet.submit(Value::from(i));
        h.send(submission);
    }
    match h.fleet.poll(0) {
        FlushStep::Submit(items) => {
            let reply = h.backend.submit_batch(items);
            let deliveries = h.fleet.complete_batch(reply);
            h.deliver(deliveries);
        }
        _ => panic!("there are enough for a batch"),
    }
    assert!(matches!(h.fleet.poll(0), FlushStep::Submit(_)));
    h.fleet.abandon();
    // The first batch was served; what was with the backend or waiting is dropped.
    let served: Vec<bool> = h.told.iter().map(|told| told.is_some()).collect();
    assert_eq!(served, vec![true, true, false, false, false]);
    // Only the batch that was answered to is counted.
    assert_eq!(h.fleet.stats().snapshot(), (0, 2, 1, 0));
    match h.fleet.poll(1) {
        FlushStep::Stop(deliveries) => assert!(deliveries.is_empty()),
        _ => panic!("the flusher is gone"),
    }
}

#[test]
fn an_abandoned_flusher_drops_what_is_pending() {
    let mut h = Harness::new(RoutingPolicy::default());
    let pooled = h.fleet.submit(Value::Null);
    let pooled = h.send(pooled);
    assert!(matches!(h.fleet.poll(0), FlushStep::Submit(_)));
    h.fleet.abandon();
    assert!(!h.fleet.is_submitting());
    match h.reply(pooled) {
        Err(BackendError::Other(told)) => assert_eq!(told, "dispatcher dropped result"),
        _ => panic!("the flusher is gone"),
    }
    let late = h.fleet.submit(Value::Null);
    let late = h.send(late);
    match h.reply(late) {
        Err(BackendError::Other(told)) => assert_eq!(told, "dispatcher closed"),
        _ => panic!("the flusher is gone"),
    }
    // Synchronous calls do not need the flusher.
    let sync = h.fleet.submit(Value::Null).sync();
    let sync = h.send(sync);
    assert_eq!(h.reply(sync).unwrap()["via"], "sync");
}
