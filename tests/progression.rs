use lodestone_core::events::{CausedBy, FsEvent, FsOperation, FsTarget};
use lodestone_core::progression::{Completion, ProgressEvent, ProgressSession};

fn session() -> ProgressSession {
    ProgressSession::new("Copying file(s)".to_string(), Some("id-1".to_string()))
}

fn start(total: Option<u64>) -> ProgressEvent {
    ProgressEvent::Start { name: "Copying file(s)".to_string(), total }
}

fn end(success: bool, message: &str) -> ProgressEvent {
    ProgressEvent::End {
        success,
        message: message.to_string(),
        completion: Some(Completion { instance_uuid: "id-1".to_string(), success }),
    }
}

#[test]
fn copy_session_starts_on_first_report() {
    let mut s = session();
    assert_eq!(s.copied(0, 1000), vec![start(Some(1000))]);
    assert_eq!(s.copied(5, 1000), vec![]);
    assert_eq!(s.copied(25, 1000), vec![ProgressEvent::Update { progress: 10, elapsed: 25 }]);
    assert_eq!(s.copied(29, 1000), vec![]);
    assert_eq!(s.copied(30, 1000), vec![ProgressEvent::Update { progress: 10, elapsed: 30 }]);
    assert_eq!(s.finish(true, "done".to_string()), vec![end(true, "done")]);
}

#[test]
fn updates_are_bounded_by_buckets() {
    let mut s = session();
    s.begin(Some(10_000));
    let mut updates = 0;
    for _ in 0..10_000 {
        updates += s.add(1).len();
    }
    assert_eq!(updates, 100);
}

#[test]
fn unknown_total_uses_default_bucket() {
    let mut s = session();
    assert_eq!(s.begin(None), vec![start(None)]);
    assert_eq!(s.add(4999), vec![]);
    assert_eq!(s.add(1), vec![ProgressEvent::Update { progress: 5000, elapsed: 5000 }]);
}

#[test]
fn small_totals_do_not_divide_by_zero() {
    let mut s = session();
    assert_eq!(s.copied(0, 50), vec![start(Some(50))]);
    assert_eq!(s.copied(1, 50), vec![ProgressEvent::Update { progress: 1, elapsed: 1 }]);
}

#[test]
fn exactly_one_end_per_session() {
    let mut s = session();
    s.begin(Some(100));
    assert_eq!(s.finish(false, "broken".to_string()), vec![end(false, "broken")]);
    assert_eq!(s.finish(true, "late".to_string()), vec![]);
    assert_eq!(s.add(10), vec![]);
    assert!(s.is_ended());
}

#[test]
fn end_without_progress_is_preceded_by_start() {
    let mut s = session();
    assert_eq!(s.finish(false, "failed early".to_string()), vec![start(None), end(false, "failed early")]);
    assert_eq!(s.copied(1, 10), vec![]);
    assert_eq!(s.begin(None), vec![]);
}

#[test]
fn session_without_instance_has_no_completion() {
    let mut s = ProgressSession::new("Uploading files".to_string(), None);
    s.begin(None);
    assert_eq!(
        s.finish(true, "Upload complete".to_string()),
        vec![ProgressEvent::End { success: true, message: "Upload complete".to_string(), completion: None }]
    );
}

#[test]
fn begin_twice_starts_once() {
    let mut s = session();
    assert_eq!(s.begin(Some(1)).len(), 1);
    assert_eq!(s.begin(Some(1)), vec![]);
}

#[test]
fn elapsed_saturates() {
    let mut s = session();
    s.begin(None);
    assert_eq!(s.add(u64::MAX).len(), 1);
    assert_eq!(s.add(u64::MAX), vec![]);
}

#[test]
fn move_event_targets_destination() {
    let ev = FsEvent::moved(vec!["a".to_string()], vec!["b".to_string()], CausedBy::System);
    assert_eq!(ev.operation, FsOperation::Move { source: vec!["a".to_string()] });
    assert_eq!(ev.target, FsTarget::File(vec!["b".to_string()]));
}
