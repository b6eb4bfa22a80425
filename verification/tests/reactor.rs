//! Tests of the reactor core itself: submission queueing, completion
//! routing, and tag bookkeeping, driven directly with plain values.

use uring_reactor::reactor::CqEvent;
use uring_reactor::reactor::IoKind;
use uring_reactor::reactor::Reactor;

#[test]
fn submissions_are_queued_in_order() {
    let mut r: Reactor<u32, u64> = Reactor::new();
    assert_eq!(r.sq_len(), 0);
    let (t1, s1) = r.submit_io(0xa, 100, IoKind::Oneshot);
    let (t2, s2) = r.submit_io(0xb, 200, IoKind::Oneshot);
    let (t3, s3) = r.submit_io(0xc, 300, IoKind::Multi);
    assert_eq!(r.sq_len(), 3);
    // Dense tags; the two stores hand out their own dense slots.
    assert_eq!((t1, t2, t3), (0, 1, 2));
    assert_eq!((s1, s2), (0, 1));
    assert_eq!(s3, 0);
    let subs = r.take_submissions();
    assert_eq!(subs, vec![(0xa, 0), (0xb, 1), (0xc, 2)]);
    assert_eq!(r.sq_len(), 0);
}

#[test]
fn complete_yields_token_and_frees_oneshot_tag() {
    let mut r: Reactor<u32, u64> = Reactor::new();
    let (tag, slot) = r.submit_io(0xa, 42, IoKind::Oneshot);
    let _ = r.take_submissions();
    assert!(r.has_pending(tag));
    let token = r.complete(tag, 1, false);
    assert_eq!(token, 42);
    // The oneshot tag is freed by its only completion.
    assert!(!r.has_pending(tag));
    assert_eq!(r.get_oneshot_result(slot), Some(1));
    assert!(r.stores_empty());
}

#[test]
fn multishot_tag_lives_until_finish() {
    let mut r: Reactor<u32, u64> = Reactor::new();
    let (tag, slot) = r.submit_io(0xa, 9, IoKind::Multi);
    let _ = r.take_submissions();
    assert_eq!(r.complete(tag, 5, true), 9);
    // The stream is still running: its tag stays live.
    assert!(r.has_pending(tag));
    assert_eq!(r.complete(tag, 0, false), 9);
    // The final completion retired it.
    assert!(!r.has_pending(tag));
    assert!(r.multishot_finished(slot));
}

#[test]
fn react_routes_batch_in_cq_order() {
    let mut r: Reactor<u32, u64> = Reactor::new();
    let (t1, _) = r.submit_io(0xa, 10, IoKind::Oneshot);
    let (t2, _) = r.submit_io(0xb, 20, IoKind::Oneshot);
    let _ = r.take_submissions();
    // Tokens come back in completion-queue order, not submission order.
    let tokens = r.react(&vec![
        CqEvent { user_data: t2, result: 1, more: false },
        CqEvent { user_data: t1, result: 1, more: false },
    ]);
    assert_eq!(tokens, vec![20, 10]);
}

#[test]
fn oneshot_tag_reuse_after_completion() {
    let mut r: Reactor<u32, u64> = Reactor::new();
    let (tag, slot) = r.submit_io(0xa, 1, IoKind::Oneshot);
    let _ = r.take_submissions();
    r.complete(tag, 1, false);
    assert_eq!(r.get_oneshot_result(slot), Some(1));
    // Both the tag and the slot are handed out again at once.
    let (tag2, slot2) = r.submit_io(0xb, 2, IoKind::Oneshot);
    assert_eq!((tag2, slot2), (tag, slot));
}
