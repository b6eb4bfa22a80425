//! End-to-end lifecycle tests: handles polling against a reactor whose
//! kernel side is played by the test, which takes the queued
//! submissions and hands back raw completion events.

use uring_reactor::io::OsError;
use uring_reactor::io::Poll;
use uring_reactor::reactor::CqEvent;
use uring_reactor::reactor::Reactor;

/// A oneshot read wakes its token and re-polls ready with the kernel's
/// byte count.
#[test]
fn single_wakeup_read() {
    let mut uring: Reactor<u32, u64> = Reactor::new();
    let mut io = uring.new_io();

    let result = io.submit_or_get_result(&mut uring, || (0xad, 10));
    assert!(matches!(result, Poll::Pending));

    let subs = uring.take_submissions();
    assert_eq!(subs, vec![(0xad, 0)]);
    let (_, tag) = subs[0];

    // The external writer makes one byte available; the kernel reports a
    // 1-byte read completion.
    let objs = uring.react(&vec![CqEvent { user_data: tag, result: 1, more: false }]);
    assert_eq!(objs, vec![10]);

    let result =
        io.submit_or_get_result(&mut uring, || panic!("Should not be called, as result will be ready"));
    assert!(matches!(result, Poll::Ready(Ok(1))));

    io.drop_io(&mut uring);
    assert!(uring.stores_empty());
}

/// A handle dropped before `react` still yields its token once; the
/// completion disposes of every trace of the handle.
#[test]
fn io_dropped_before_react_cleanup() {
    let mut uring: Reactor<u32, u64> = Reactor::new();
    let mut io = uring.new_io();

    assert!(matches!(
        io.submit_or_get_result(&mut uring, || (0xad, 10)),
        Poll::Pending
    ));
    let subs = uring.take_submissions();
    let (_, tag) = subs[0];

    io.drop_io(&mut uring);

    let objs = uring.react(&vec![CqEvent { user_data: tag, result: 1, more: false }]);
    assert_eq!(objs, vec![10]);

    assert!(!uring.has_pending(tag));
    assert!(uring.stores_empty());
}

/// A oneshot write wakes its token and re-polls ready with the number
/// of bytes written.
#[test]
fn single_wakeup_write() {
    let mut uring: Reactor<u32, u64> = Reactor::new();
    let mut io = uring.new_io();

    let result = io.submit_or_get_result(&mut uring, || (0xbe, 20));
    assert!(matches!(result, Poll::Pending));

    let subs = uring.take_submissions();
    let (_, tag) = subs[0];

    // The external reader drains one byte; the kernel reports a 1-byte
    // write completion.
    let objs = uring.react(&vec![CqEvent { user_data: tag, result: 1, more: false }]);
    assert_eq!(objs, vec![20]);

    let result =
        io.submit_or_get_result(&mut uring, || panic!("Should not be called, as result will be ready"));
    assert!(matches!(result, Poll::Ready(Ok(1))));

    io.drop_io(&mut uring);
    assert!(uring.stores_empty());
}

/// Two oneshot reads on the same descriptor: one react call yields both
/// tokens, and each handle receives exactly its own one-byte result.
#[test]
fn multi_events_same_fd_read() {
    let mut uring: Reactor<u32, u64> = Reactor::new();

    let mut io1 = uring.new_io();
    assert!(matches!(
        io1.submit_or_get_result(&mut uring, || (0xde, 10)),
        Poll::Pending
    ));
    let mut io2 = uring.new_io();
    assert!(matches!(
        io2.submit_or_get_result(&mut uring, || (0xde, 20)),
        Poll::Pending
    ));

    let subs = uring.take_submissions();
    assert_eq!(subs.len(), 2);
    let (_, t1) = subs[0];
    let (_, t2) = subs[1];
    assert_ne!(t1, t2);

    // Two bytes arrive; the kernel completes both reads.
    let objs = uring.react(&vec![
        CqEvent { user_data: t1, result: 1, more: false },
        CqEvent { user_data: t2, result: 1, more: false },
    ]);
    assert_eq!(objs.len(), 2);
    assert!(objs.contains(&10));
    assert!(objs.contains(&20));

    assert!(matches!(
        io1.submit_or_get_result(&mut uring, || panic!("Should not be called")),
        Poll::Ready(Ok(1))
    ));
    assert!(matches!(
        io2.submit_or_get_result(&mut uring, || panic!("Should not be called")),
        Poll::Ready(Ok(1))
    ));

    io1.drop_io(&mut uring);
    io2.drop_io(&mut uring);
    assert!(uring.stores_empty());
}

/// Two oneshot writes on the same descriptor: one react call yields both
/// tokens, and each handle reports its two bytes written.
#[test]
fn multi_events_same_fd_write() {
    let mut uring: Reactor<u32, u64> = Reactor::new();

    let mut io1 = uring.new_io();
    assert!(matches!(
        io1.submit_or_get_result(&mut uring, || (0xbeef, 10)),
        Poll::Pending
    ));
    let mut io2 = uring.new_io();
    assert!(matches!(
        io2.submit_or_get_result(&mut uring, || (0xbeef, 20)),
        Poll::Pending
    ));

    let subs = uring.take_submissions();
    let (_, t1) = subs[0];
    let (_, t2) = subs[1];

    let objs = uring.react(&vec![
        CqEvent { user_data: t1, result: 2, more: false },
        CqEvent { user_data: t2, result: 2, more: false },
    ]);
    assert_eq!(objs.len(), 2);
    assert!(objs.contains(&10));
    assert!(objs.contains(&20));

    assert!(matches!(
        io1.submit_or_get_result(&mut uring, || panic!("Should not be called")),
        Poll::Ready(Ok(2))
    ));
    assert!(matches!(
        io2.submit_or_get_result(&mut uring, || panic!("Should not be called")),
        Poll::Ready(Ok(2))
    ));

    io1.drop_io(&mut uring);
    io2.drop_io(&mut uring);
    assert!(uring.stores_empty());
}

/// A multishot stream delivers three values, is polled dry, and is then
/// dropped before end-of-stream: the teardown (after the synchronous
/// kernel cancel the runtime performs) frees the tag and empties the
/// store.
#[test]
fn multishot_stream_drop_cancel() {
    let mut uring: Reactor<u32, u64> = Reactor::new();
    let mut h = uring.new_multishot_io();

    assert!(matches!(
        h.submit_or_get_result(&mut uring, || (0xcc, 7)),
        Poll::Pending
    ));
    let subs = uring.take_submissions();
    let (_, tag) = subs[0];

    let objs = uring.react(&vec![
        CqEvent { user_data: tag, result: 11, more: true },
        CqEvent { user_data: tag, result: 22, more: true },
        CqEvent { user_data: tag, result: 33, more: true },
    ]);
    assert_eq!(objs, vec![7, 7, 7]);

    assert!(matches!(
        h.submit_or_get_result(&mut uring, || panic!("Should not be called")),
        Poll::Ready(Some(Ok(11)))
    ));
    assert!(matches!(
        h.submit_or_get_result(&mut uring, || panic!("Should not be called")),
        Poll::Ready(Some(Ok(22)))
    ));
    assert!(matches!(
        h.submit_or_get_result(&mut uring, || panic!("Should not be called")),
        Poll::Ready(Some(Ok(33)))
    ));
    assert!(matches!(
        h.submit_or_get_result(&mut uring, || panic!("Should not be called")),
        Poll::Pending
    ));

    // The stream is still running, so teardown requires a synchronous
    // kernel cancel by tag; the runtime performs it, then releases.
    assert_eq!(h.cancel_tag(&uring), Some(tag));
    h.drop_io(&mut uring);

    assert!(!uring.has_pending(tag));
    assert!(uring.stores_empty());
}

/// A multishot stream delivers two values and a natural end-of-stream:
/// polls yield the values in order, then ready-none; no cancel is
/// needed at teardown and the store ends empty.
#[test]
fn multishot_natural_finish() {
    let mut uring: Reactor<u32, u64> = Reactor::new();
    let mut h = uring.new_multishot_io();

    assert!(matches!(
        h.submit_or_get_result(&mut uring, || (0xcc, 7)),
        Poll::Pending
    ));
    let subs = uring.take_submissions();
    let (_, tag) = subs[0];

    // Two values, then the final completion with the more flag clear.
    let objs = uring.react(&vec![
        CqEvent { user_data: tag, result: 1, more: true },
        CqEvent { user_data: tag, result: 2, more: true },
        CqEvent { user_data: tag, result: 0, more: false },
    ]);
    assert_eq!(objs, vec![7, 7, 7]);
    // The end-of-stream completion already retired the pending entry.
    assert!(!uring.has_pending(tag));

    assert!(matches!(
        h.submit_or_get_result(&mut uring, || panic!("Should not be called")),
        Poll::Ready(Some(Ok(1)))
    ));
    assert!(matches!(
        h.submit_or_get_result(&mut uring, || panic!("Should not be called")),
        Poll::Ready(Some(Ok(2)))
    ));
    assert!(matches!(
        h.submit_or_get_result(&mut uring, || panic!("Should not be called")),
        Poll::Ready(None)
    ));
    // Ready(none) forever.
    assert!(matches!(
        h.submit_or_get_result(&mut uring, || panic!("Should not be called")),
        Poll::Ready(None)
    ));

    assert_eq!(h.cancel_tag(&uring), None);
    h.drop_io(&mut uring);
    assert!(uring.stores_empty());
}

/// Polling a finished oneshot handle is idempotent: every poll returns
/// the same ready value and the stores stay empty.
#[test]
fn finished_poll_idempotent() {
    let mut uring: Reactor<u32, u64> = Reactor::new();
    let mut io = uring.new_io();
    io.submit_or_get_result(&mut uring, || (1, 10));
    let subs = uring.take_submissions();
    let (_, tag) = subs[0];
    uring.react(&vec![CqEvent { user_data: tag, result: 4, more: false }]);

    for _ in 0..3 {
        assert!(matches!(
            io.submit_or_get_result(&mut uring, || panic!("Should not be called")),
            Poll::Ready(Ok(4))
        ));
        assert!(uring.stores_empty());
    }
    io.drop_io(&mut uring);
}

/// Polling a submitted handle before its completion is routed is
/// idempotent: every poll reports pending and nothing changes.
#[test]
fn pending_poll_idempotent() {
    let mut uring: Reactor<u32, u64> = Reactor::new();
    let mut io = uring.new_io();
    io.submit_or_get_result(&mut uring, || (1, 10));
    let subs = uring.take_submissions();
    let (_, tag) = subs[0];

    for _ in 0..3 {
        assert!(matches!(
            io.submit_or_get_result(&mut uring, || panic!("Should not be called")),
            Poll::Pending
        ));
        assert!(uring.has_pending(tag));
    }

    uring.react(&vec![CqEvent { user_data: tag, result: 1, more: false }]);
    assert!(matches!(
        io.submit_or_get_result(&mut uring, || panic!("Should not be called")),
        Poll::Ready(Ok(1))
    ));
    io.drop_io(&mut uring);
    assert!(uring.stores_empty());
}

/// A kernel error completion surfaces as the OS error of its magnitude.
#[test]
fn error_completion() {
    let mut uring: Reactor<u32, u64> = Reactor::new();
    let mut io = uring.new_io();
    io.submit_or_get_result(&mut uring, || (1, 10));
    let subs = uring.take_submissions();
    let (_, tag) = subs[0];

    // The kernel reports a connection-reset error.
    uring.react(&vec![CqEvent { user_data: tag, result: -104, more: false }]);
    match io.submit_or_get_result(&mut uring, || panic!("Should not be called")) {
        Poll::Ready(Err(e)) => assert_eq!(e, OsError { code: 104 }),
        _ => panic!("expected a ready error"),
    }
    io.drop_io(&mut uring);
    assert!(uring.stores_empty());
}

/// After interleaved oneshot and multishot traffic has fully quiesced,
/// both result stores are empty and the freed tags are reused.
#[test]
fn quiesced_stores_are_empty() {
    let mut uring: Reactor<u32, u64> = Reactor::new();

    let mut a = uring.new_io();
    let mut b = uring.new_multishot_io();
    a.submit_or_get_result(&mut uring, || (1, 1));
    b.submit_or_get_result(&mut uring, || (2, 2));
    let subs = uring.take_submissions();
    let (_, ta) = subs[0];
    let (_, tb) = subs[1];

    uring.react(&vec![
        CqEvent { user_data: tb, result: 5, more: true },
        CqEvent { user_data: ta, result: 3, more: false },
        CqEvent { user_data: tb, result: 0, more: false },
    ]);

    assert!(matches!(
        a.submit_or_get_result(&mut uring, || panic!("Should not be called")),
        Poll::Ready(Ok(3))
    ));
    assert!(matches!(
        b.submit_or_get_result(&mut uring, || panic!("Should not be called")),
        Poll::Ready(Some(Ok(5)))
    ));
    assert!(matches!(
        b.submit_or_get_result(&mut uring, || panic!("Should not be called")),
        Poll::Ready(None)
    ));
    a.drop_io(&mut uring);
    b.drop_io(&mut uring);

    assert!(uring.stores_empty());

    // A fresh submission reuses the freed dense keys.
    let mut c = uring.new_io();
    c.submit_or_get_result(&mut uring, || (9, 9));
    let subs = uring.take_submissions();
    assert!(subs[0].1 == ta || subs[0].1 == tb);
    c.drop_io(&mut uring);
}
