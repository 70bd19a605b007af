use js_worker::{JsWorkerError, WorkerChannel};

#[test]
fn one_request_runs_through_the_lifecycle() {
    let mut c = WorkerChannel::new();
    assert!(c.enqueue().is_ok());
    assert!(c.begin());
    assert!(c.finish());
    assert_eq!(c.close(), 0);
}

#[test]
fn begin_needs_a_queued_request() {
    let mut c = WorkerChannel::new();
    assert!(!c.begin());
    assert!(c.enqueue().is_ok());
    assert!(c.begin());
    assert!(!c.begin());
}

#[test]
fn finish_needs_a_running_evaluation() {
    let mut c = WorkerChannel::new();
    assert!(!c.finish());
    assert!(c.enqueue().is_ok());
    assert!(!c.finish());
    assert!(c.begin());
    assert!(c.finish());
}

#[test]
fn requests_serialize_one_at_a_time() {
    let mut c = WorkerChannel::new();
    assert!(c.enqueue().is_ok());
    assert!(c.enqueue().is_ok());
    assert!(c.begin());
    assert!(!c.begin());
    assert!(c.finish());
    assert!(c.begin());
    assert!(c.finish());
    assert_eq!(c.close(), 0);
}

#[test]
fn enqueue_after_close_fails() {
    let mut c = WorkerChannel::new();
    c.close();
    match c.enqueue() {
        Err(JsWorkerError::Other(msg)) => assert_eq!(msg, "worker is closed"),
        _ => panic!("a closed channel must refuse requests"),
    }
}

#[test]
fn close_reports_every_abandoned_request() {
    let mut c = WorkerChannel::new();
    assert!(c.enqueue().is_ok());
    assert!(c.enqueue().is_ok());
    assert_eq!(c.close(), 2);
    assert_eq!(c.close(), 0);
}

#[test]
fn close_during_evaluation_still_tears_down() {
    let mut c = WorkerChannel::new();
    assert!(c.enqueue().is_ok());
    assert!(c.enqueue().is_ok());
    assert!(c.begin());
    assert_eq!(c.close(), 1);
    assert!(!c.begin());
    assert!(!c.finish());
}
