//! Unit tests for the result stores: every arm of the oneshot and
//! multishot transition tables, slot reuse, and emptiness.

use uring_reactor::io::reactor_value_to_result;
use uring_reactor::io::OsError;
use uring_reactor::stores::MultishotResult;
use uring_reactor::stores::OneshotStore;
use uring_reactor::stores::RingResults;
use uring_reactor::stores::MULTISHOT_QUEUE_CAPACITY;

#[test]
fn oneshot_set_then_get() {
    let mut s = OneshotStore::new();
    let idx = s.create_slot();
    assert_eq!(idx, 0);
    assert!(!s.is_empty());
    // Pending: nothing to read yet.
    assert_eq!(s.get_result(idx), None);
    // Kernel delivers; the reader takes the value and the slot is gone.
    s.set_result(5, idx);
    assert_eq!(s.get_result(idx), Some(5));
    assert!(s.is_empty());
}

#[test]
fn oneshot_drop_then_set_disposes() {
    let mut s = OneshotStore::new();
    let idx = s.create_slot();
    // Handle dropped first: slot marked, kept for the completion.
    s.drop_result(idx);
    assert!(!s.is_empty());
    // Completion arrives and disposes of the marked slot.
    s.set_result(7, idx);
    assert!(s.is_empty());
}

#[test]
fn oneshot_set_then_drop_disposes() {
    let mut s = OneshotStore::new();
    let idx = s.create_slot();
    s.set_result(9, idx);
    // Handle dropped with the value unread: slot leaves the store.
    s.drop_result(idx);
    assert!(s.is_empty());
}

#[test]
fn oneshot_slot_reuse_is_immediate() {
    let mut s = OneshotStore::new();
    let a = s.create_slot();
    let b = s.create_slot();
    assert_eq!((a, b), (0, 1));
    s.set_result(1, a);
    assert_eq!(s.get_result(a), Some(1));
    // The freed slot id is handed out again at once.
    assert_eq!(s.create_slot(), 0);
}

#[test]
fn multishot_stream_then_finish() {
    let mut rr = RingResults::new();
    let ms = rr.get_multishot();
    let idx = ms.create_slot();
    ms.push_result(11, idx);
    ms.push_result(22, idx);
    assert!(matches!(ms.pop_result(idx), MultishotResult::Value(11)));
    assert!(matches!(ms.pop_result(idx), MultishotResult::Value(22)));
    // Empty queue, stream still running.
    assert!(matches!(ms.pop_result(idx), MultishotResult::Pending));
    ms.set_finished(idx);
    // Empty queue, stream over.
    assert!(matches!(ms.pop_result(idx), MultishotResult::Finished));
    assert!(!ms.is_empty());
    // Handle discarded after the finish: slot leaves the store.
    ms.drop_result(idx);
    assert!(rr.is_empty());
}

#[test]
fn multishot_drop_then_finish_disposes() {
    let mut rr = RingResults::new();
    let idx = rr.get_multishot().create_slot();
    // Handle discarded while the stream runs: marked dropped.
    rr.get_multishot().drop_result(idx);
    // A late value already in flight is discarded.
    rr.get_multishot().push_result(5, idx);
    assert!(!rr.is_empty());
    // The end-of-stream report disposes of the dropped slot.
    rr.get_multishot().set_finished(idx);
    assert!(rr.is_empty());
}

#[test]
fn multishot_full_queue_discards() {
    let mut rr = RingResults::new();
    let ms = rr.get_multishot();
    let idx = ms.create_slot();
    for i in 0..MULTISHOT_QUEUE_CAPACITY {
        ms.push_result(i as i32, idx);
    }
    // The queue is at capacity: this value is discarded.
    ms.push_result(-1, idx);
    for i in 0..MULTISHOT_QUEUE_CAPACITY {
        assert!(matches!(ms.pop_result(idx), MultishotResult::Value(v) if v == i as i32));
    }
    assert!(matches!(ms.pop_result(idx), MultishotResult::Pending));
    ms.set_finished(idx);
    ms.drop_result(idx);
    assert!(rr.is_empty());
}

#[test]
fn ring_results_accessors() {
    let mut rr = RingResults::new();
    assert!(rr.is_empty());
    let a = rr.get_oneshot().create_slot();
    let b = rr.get_multishot().create_slot();
    assert_eq!((a, b), (0, 0));
    assert!(!rr.is_empty());
    rr.get_oneshot().set_result(1, a);
    assert_eq!(rr.get_oneshot().get_result(a), Some(1));
    rr.get_multishot().set_finished(b);
    rr.get_multishot().drop_result(b);
    assert!(rr.is_empty());
}

#[test]
fn value_decoding() {
    // Non-negative values are successes, verbatim.
    assert_eq!(reactor_value_to_result(0), Ok(0));
    assert_eq!(reactor_value_to_result(1), Ok(1));
    assert_eq!(reactor_value_to_result(i32::MAX), Ok(i32::MAX));
    // Negative values are OS errors keyed by their magnitude.
    assert_eq!(reactor_value_to_result(-2), Err(OsError { code: 2 }));
    assert_eq!(reactor_value_to_result(-11), Err(OsError { code: 11 }));
    assert_eq!(
        reactor_value_to_result(i32::MIN),
        Err(OsError { code: 2147483648 })
    );
}
