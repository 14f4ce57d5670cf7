use outbox_publisher::models::{OutboxMessages, Timestamp};
use outbox_publisher::outbox::{
    answer_from_memory, Action, DrainCycle, DrainError, Event, Phase, PublishError,
};
use outbox_publisher::store::{MemoryStore, StoreError};

fn message(id: &str) -> OutboxMessages {
    OutboxMessages {
        uuid: id.to_string(),
        payload: format!("payload of {}", id),
        exchange: "payments".to_string(),
        routing_key: "payment.created".to_string(),
        ..OutboxMessages::default()
    }
}

fn store_with(messages: Vec<OutboxMessages>) -> MemoryStore {
    let mut store = MemoryStore::new();
    for m in messages {
        assert!(store.insert(m));
    }
    store
}

fn clock() -> Timestamp {
    Timestamp { micros: chrono::Utc::now().timestamp_micros() }
}

fn failure(text: &str) -> PublishError {
    PublishError { description: text.to_string() }
}

/// Runs one cycle against `store`, answering the n-th publish with
/// `outcomes[n]`. Returns every action asked for, the messages handed to the
/// publisher, and the cycle's outcome.
fn drive(
    store: &mut MemoryStore,
    outcomes: Vec<Result<(), PublishError>>,
) -> (Vec<Action>, Vec<OutboxMessages>, Result<(), DrainError>) {
    let (mut cycle, mut action) = DrainCycle::new(clock());
    let mut log = Vec::new();
    let mut published = Vec::new();
    let mut outcomes = outcomes.into_iter();
    loop {
        let event = match &action {
            Action::Finish(r) => {
                let r = r.clone();
                log.push(action);
                return (log, published, r);
            }
            Action::Publish(i) => {
                published.push(cycle.message(*i).clone());
                Event::Published(outcomes.next().expect("a publish outcome"))
            }
            _ => answer_from_memory(store, &cycle, &action).expect("a store action"),
        };
        assert!(cycle.awaits(&event));
        log.push(action);
        action = cycle.step(event, clock());
    }
}

#[test]
fn performs_noop_when_fetching_messages_fail() {
    let (mut cycle, first) = DrainCycle::new(clock());
    assert_eq!(first, Action::Fetch);
    let error = StoreError { description: "no rows returned".to_string() };
    let action = cycle.step(Event::Fetched(Err(error.clone())), clock());
    assert_eq!(action, Action::Finish(Err(DrainError::Store(error))));
    assert_eq!(cycle.phase(), Phase::Done);
    assert!(!cycle.awaits(&Event::Published(Ok(()))));
    assert!(!cycle.awaits(&Event::Marked(true)));
}

#[test]
fn publishes_messages_and_completes_them() {
    let m = OutboxMessages::default();
    let mut store = store_with(vec![m.clone()]);
    let (log, published, result) = drive(&mut store, vec![Ok(())]);
    assert_eq!(published, vec![m]);
    let completes = log.iter().filter(|a| matches!(a, Action::MarkComplete { .. })).count();
    let fails = log.iter().filter(|a| matches!(a, Action::MarkFailed { .. })).count();
    assert_eq!(completes, 1);
    assert_eq!(fails, 0);
    assert!(result == Ok(()));
}

#[test]
fn publishes_messages_and_fails_them() {
    let m = OutboxMessages::default();
    let mut store = store_with(vec![m.clone()]);
    let (log, published, result) = drive(&mut store, vec![Err(failure("channels limit reached"))]);
    assert_eq!(published, vec![m]);
    let completes = log.iter().filter(|a| matches!(a, Action::MarkComplete { .. })).count();
    let fails = log.iter().filter(|a| matches!(a, Action::MarkFailed { .. })).count();
    assert_eq!(fails, 1);
    assert_eq!(completes, 0);
    assert!(result == Ok(()));
}

#[test]
fn empty_backlog_is_a_no_op() {
    let mut store = MemoryStore::new();
    let (log, published, result) = drive(&mut store, vec![]);
    assert_eq!(log, vec![Action::Fetch, Action::Finish(Ok(()))]);
    assert!(published.is_empty());
    assert_eq!(result, Ok(()));
}

#[test]
fn success_path_marks_complete_after_cycle_start() {
    let started = chrono::Utc::now().timestamp_micros();
    let mut store = store_with(vec![message("a")]);
    let (log, published, result) = drive(&mut store, vec![Ok(())]);
    assert_eq!(published, vec![message("a")]);
    assert_eq!(log.len(), 4);
    assert_eq!(log[0], Action::Fetch);
    assert_eq!(log[1], Action::Publish(0));
    match &log[2] {
        Action::MarkComplete { index, completed_at } => {
            assert_eq!(*index, 0);
            assert!(completed_at.micros >= started);
            assert!(completed_at.is_not_before(&Timestamp { micros: started }));
        }
        other => panic!("unexpected action {:?}", other),
    }
    assert_eq!(log[3], Action::Finish(Ok(())));
    assert_eq!(result, Ok(()));
    assert_eq!(store.fetch_pending(), Ok(vec![]));
}

#[test]
fn failure_path_records_error_and_keeps_message_pending() {
    let mut store = store_with(vec![message("a")]);
    let (log, _, result) = drive(&mut store, vec![Err(failure("broker rejected"))]);
    assert_eq!(result, Ok(()));
    assert!(!log.iter().any(|a| matches!(a, Action::MarkComplete { .. })));
    let failed_at = match &log[2] {
        Action::MarkFailed { index, error, failed_at } => {
            assert_eq!(*index, 0);
            assert_eq!(error, "broker rejected");
            *failed_at
        }
        other => panic!("unexpected action {:?}", other),
    };
    let pending = store.fetch_pending().unwrap();
    assert_eq!(pending.len(), 1);
    assert_eq!(pending[0].uuid, "a");
    assert_eq!(pending[0].last_error, Some("broker rejected".to_string()));
    assert_eq!(pending[0].failed_at, Some(failed_at));
    assert_eq!(pending[0].completed_at, None);
}

#[test]
fn batch_isolation_first_fails_second_succeeds() {
    let mut store = store_with(vec![message("a"), message("b")]);
    let (log, published, result) = drive(&mut store, vec![Err(failure("nack")), Ok(())]);
    assert_eq!(result, Ok(()));
    assert_eq!(published, vec![message("a"), message("b")]);
    assert_eq!(log.len(), 6);
    assert_eq!(log[1], Action::Publish(0));
    assert!(matches!(&log[2], Action::MarkFailed { index: 0, .. }));
    assert_eq!(log[3], Action::Publish(1));
    assert!(matches!(&log[4], Action::MarkComplete { index: 1, .. }));
    let pending = store.fetch_pending().unwrap();
    assert_eq!(pending.len(), 1);
    assert_eq!(pending[0].uuid, "a");
}

#[test]
fn completed_message_is_never_fetched_again() {
    let mut done = message("done");
    done.completed_at = Some(Timestamp { micros: 10 });
    let mut store = store_with(vec![message("a"), done, message("b")]);
    let pending = store.fetch_pending().unwrap();
    assert_eq!(pending, vec![message("a"), message("b")]);
    assert!(store.mark_complete(&"a".to_string(), Timestamp { micros: 20 }));
    assert!(store.mark_complete(&"a".to_string(), Timestamp { micros: 20 }));
    assert_eq!(store.fetch_pending().unwrap(), vec![message("b")]);
}

#[test]
fn mark_failure_does_not_abort_cycle() {
    let (mut cycle, _) = DrainCycle::new(Timestamp { micros: 1 });
    let a = cycle.step(Event::Fetched(Ok(vec![message("a"), message("b")])), clock());
    assert_eq!(a, Action::Publish(0));
    let a = cycle.step(Event::Published(Ok(())), Timestamp { micros: 5 });
    assert_eq!(a, Action::MarkComplete { index: 0, completed_at: Timestamp { micros: 5 } });
    let a = cycle.step(Event::Marked(false), clock());
    assert_eq!(a, Action::Publish(1));
    let a = cycle.step(Event::Published(Ok(())), Timestamp { micros: 6 });
    assert_eq!(a, Action::MarkComplete { index: 1, completed_at: Timestamp { micros: 6 } });
    let a = cycle.step(Event::Marked(false), clock());
    assert_eq!(a, Action::Finish(Ok(())));
}

#[test]
fn marking_an_unknown_message_reports_failure() {
    let mut store = store_with(vec![message("a")]);
    assert!(!store.mark_complete(&"zzz".to_string(), Timestamp { micros: 1 }));
    assert!(!store.mark_failed(&"zzz".to_string(), &"e".to_string(), Timestamp { micros: 1 }));
    assert_eq!(store.fetch_pending().unwrap(), vec![message("a")]);
}

#[test]
fn duplicate_identifier_is_refused() {
    let mut store = store_with(vec![message("a")]);
    let mut other = message("a");
    other.payload = "different".to_string();
    assert!(!store.insert(other));
    assert_eq!(store.fetch_pending().unwrap(), vec![message("a")]);
}

#[test]
fn repeated_failures_overwrite_error_and_time() {
    let mut store = store_with(vec![message("a")]);
    assert!(store.mark_failed(&"a".to_string(), &"first".to_string(), Timestamp { micros: 1 }));
    assert!(store.mark_failed(&"a".to_string(), &"second".to_string(), Timestamp { micros: 2 }));
    let pending = store.fetch_pending().unwrap();
    assert_eq!(pending[0].last_error, Some("second".to_string()));
    assert_eq!(pending[0].failed_at, Some(Timestamp { micros: 2 }));
}

#[test]
fn outcome_is_stamped_with_the_time_received() {
    let (mut cycle, _) = DrainCycle::new(clock());
    cycle.step(Event::Fetched(Ok(vec![message("a")])), clock());
    let before = chrono::Utc::now().timestamp_micros();
    let a = cycle.step(Event::Published(Err(failure("x"))), clock());
    let after = chrono::Utc::now().timestamp_micros();
    match a {
        Action::MarkFailed { failed_at, .. } => {
            assert!(failed_at.micros >= before && failed_at.micros <= after);
        }
        other => panic!("unexpected action {:?}", other),
    }
}

#[test]
fn wrong_event_is_not_awaited() {
    let (cycle, _) = DrainCycle::new(clock());
    assert!(cycle.awaits(&Event::Fetched(Ok(vec![]))));
    assert!(!cycle.awaits(&Event::Published(Ok(()))));
    assert!(!cycle.awaits(&Event::Marked(true)));
    assert_eq!(cycle.len(), 0);
}

#[test]
fn duplicate_copies_every_field() {
    let mut m = message("a");
    m.last_error = Some("e".to_string());
    m.metadata = Some("{}".to_string());
    m.attempts = 3;
    m.failed_at = Some(Timestamp { micros: 7 });
    assert_eq!(m.duplicate(), m);
    assert!(m.pending());
}

#[test]
fn outcome_is_never_stamped_before_cycle_start() {
    let start = Timestamp { micros: 100 };
    let (mut cycle, _) = DrainCycle::new(start);
    assert_eq!(cycle.started(), start);
    cycle.step(Event::Fetched(Ok(vec![message("a"), message("b")])), Timestamp { micros: 101 });
    let a = cycle.step(Event::Published(Ok(())), Timestamp { micros: 50 });
    assert_eq!(a, Action::MarkComplete { index: 0, completed_at: start });
    cycle.step(Event::Marked(true), Timestamp { micros: 51 });
    let a = cycle.step(Event::Published(Err(failure("late"))), Timestamp { micros: 130 });
    assert_eq!(
        a,
        Action::MarkFailed { index: 1, error: "late".to_string(), failed_at: Timestamp { micros: 130 } }
    );
}
