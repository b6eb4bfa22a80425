//! The multishot I/O handle: one submission, a stream of completions.
//!
//! The handle walks `New -> Submitted(slot, tag)`. Its first poll
//! enqueues the submission; later polls drain the slot's queue in
//! arrival order, answer `Pending` while the stream is running, and
//! `Ready(None)` once the kernel has reported end-of-stream. Unlike a
//! oneshot submission, a multishot submission keeps producing
//! completions until it is cancelled, so discarding a handle whose
//! stream has not finished requires the embedding runtime to cancel the
//! kernel submission by tag, synchronously, before the teardown call.

use crate::io::value_to_result;
use crate::io::OsError;
use crate::io::Poll;
use crate::reactor::IoKind;
use crate::reactor::Reactor;
use crate::reactor::ReactorModel;
use crate::reactor::RING_CAPACITY;
use crate::stores::MultishotResult;
use crate::stores::MultishotSlotModel;
use vstd::prelude::*;

verus! {

/// State of a multishot handle: fresh, or submitted with its result
/// slot and its pending-table tag (the kernel `user_data`, needed for
/// cancel-by-tag at teardown).
#[derive(Clone, Copy)]
pub enum IoState {
    New,
    Submitted(usize, usize),
}

/// A multishot I/O handle. All reactor state it manipulates is passed
/// in explicitly, so the handle itself is just the state machine.
pub struct MultishotUringIo {
    state: IoState,
}

impl View for MultishotUringIo {
    type V = IoState;

    closed spec fn view(&self) -> IoState {
        self.state
    }
}

/// What one poll of a submitted handle does to the reactor and the
/// caller: the queue's head is taken in arrival order; an empty queue
/// reports `Pending` while the stream runs and `Ready(None)` forever
/// once it has finished.
pub open spec fn poll_step<T, E>(h: IoState, m: ReactorModel<T, E>) -> (
    IoState,
    ReactorModel<T, E>,
    Poll<Option<Result<i32, OsError>>>,
) {
    match h {
        IoState::New => (h, m, Poll::Pending),
        IoState::Submitted(slot, tag) => {
            let s = m.multishot[slot as int].unwrap();
            if s.queue.len() > 0 {
                (
                    h,
                    ReactorModel {
                        multishot: m.multishot.update(
                            slot as int,
                            Some(
                                MultishotSlotModel {
                                    queue: s.queue.subrange(1, s.queue.len() as int),
                                    ..s
                                },
                            ),
                        ),
                        ..m
                    },
                    Poll::Ready(Some(value_to_result(s.queue[0]))),
                )
            } else if s.finished {
                (h, m, Poll::Ready(None))
            } else {
                (h, m, Poll::Pending)
            }
        },
    }
}

/// What discarding a handle does to the reactor. A finished stream only
/// has its slot left, and the slot leaves the store. A running stream
/// has been cancelled in the kernel by the caller, so its pending entry
/// is retired — freeing the tag — and its slot leaves the store.
pub open spec fn drop_step<T, E>(h: IoState, m: ReactorModel<T, E>) -> ReactorModel<T, E> {
    match h {
        IoState::New => m,
        IoState::Submitted(slot, tag) => if m.multishot[slot as int].unwrap().finished {
            ReactorModel { multishot: m.multishot.update(slot as int, None), ..m }
        } else {
            ReactorModel {
                pending: m.pending.update(tag as int, None),
                multishot: m.multishot.update(slot as int, None),
                ..m
            }
        },
    }
}

/// A live submitted handle owns a live, un-dropped slot. While the
/// stream runs, the handle's tag is the unique pending entry routing
/// completions to that slot; once the kernel has reported end-of-stream
/// the entry is retired and no pending entry references the slot at
/// all.
pub open spec fn state_inv<T, E>(h: IoState, m: ReactorModel<T, E>) -> bool {
    match h {
        IoState::New => true,
        IoState::Submitted(slot, tag) => {
            &&& slot < m.multishot.len()
            &&& m.multishot[slot as int] is Some
            &&& !m.multishot[slot as int].unwrap().dropped
            &&& if m.multishot[slot as int].unwrap().finished {
                forall|t: int|
                    0 <= t < m.pending.len() && (#[trigger] m.pending[t]) is Some ==> !(
                    m.pending[t].unwrap().kind is Multi && m.pending[t].unwrap().result_slab_idx
                        == slot)
            } else {
                &&& tag < m.pending.len()
                &&& m.pending[tag as int] is Some
                &&& m.pending[tag as int].unwrap().kind is Multi
                &&& m.pending[tag as int].unwrap().result_slab_idx == slot
            }
        },
    }
}

impl MultishotUringIo {
    /// The handle's obligation on the reactor it polls against.
    pub open spec fn inv<T, E>(self, m: ReactorModel<T, E>) -> bool {
        state_inv(self@, m)
    }

    pub fn new() -> (h: Self)
        ensures
            h@ is New,
    {
        MultishotUringIo { state: IoState::New }
    }

    /// The tag the embedding runtime must cancel in the kernel,
    /// synchronously, before tearing this handle down — or nothing, if
    /// the stream has already finished (or was never submitted) and no
    /// completion can arrive anyway.
    pub fn cancel_tag<T: Clone, E>(&self, r: &Reactor<T, E>) -> (c: Option<usize>)
        requires
            r.wf(),
            self.inv(r@),
        ensures
            match self@ {
                IoState::Submitted(slot, tag) => if r@.multishot[slot as int].unwrap().finished {
                    c is None
                } else {
                    c == Some(tag)
                },
                IoState::New => c is None,
            },
    {
        match self.state {
            IoState::Submitted(slot, tag) => {
                if r.multishot_finished(slot) {
                    None
                } else {
                    Some(tag)
                }
            },
            IoState::New => None,
        }
    }

    /// Drive the handle. On the first call the two providers are invoked
    /// for the submission descriptor and its wake token, the submission
    /// is enqueued and `Pending` returned; afterwards the stream's queue
    /// is drained in arrival order, ending with `Ready(None)` once the
    /// kernel has reported end-of-stream.
    pub fn submit_or_get_result<T: Clone, E, F: FnOnce() -> (E, T)>(
        &mut self,
        r: &mut Reactor<T, E>,
        f: F,
    ) -> (p: Poll<Option<Result<i32, OsError>>>)
        requires
            old(r).wf(),
            old(r)@.inv(),
            old(self).inv(old(r)@),
            old(self)@ is New ==> call_requires(f, ()) && old(r)@.sq.len() < RING_CAPACITY,
        ensures
            final(r).wf(),
            final(r)@.inv(),
            final(self).inv(final(r)@),
            old(self)@ is New ==> p is Pending && final(self)@ is Submitted && exists|
                entry: E,
                obj: T,
                tag: int,
                slot: int,
            |
                call_ensures(f, (), (entry, obj)) && #[trigger] old(r)@.submit_post(
                    final(r)@,
                    entry,
                    obj,
                    IoKind::Multi,
                    tag,
                    slot,
                ) && final(self)@ == IoState::Submitted(slot as usize, tag as usize),
            !(old(self)@ is New) ==> (final(self)@, final(r)@, p) == poll_step(
                old(self)@,
                old(r)@,
            ),
    {
        match self.state {
            IoState::New => {
                let (entry, obj) = f();
                let (user_data, result_slot) = r.submit_io(entry, obj, IoKind::Multi);
                self.state = IoState::Submitted(result_slot, user_data);
                Poll::Pending
            },
            IoState::Submitted(slot, _) => {
                match r.pop_multishot_result(slot) {
                    MultishotResult::Value(v) => Poll::Ready(
                        Some(crate::io::reactor_value_to_result(v)),
                    ),
                    MultishotResult::Pending => Poll::Pending,
                    MultishotResult::Finished => Poll::Ready(None),
                }
            },
        }
    }

    /// Tear the handle down. The caller must first have performed the
    /// synchronous kernel cancellation for [`Self::cancel_tag`], so that
    /// no completion for the handle's tag can ever arrive again; the
    /// teardown then frees the tag and the slot in one step.
    pub fn drop_io<T: Clone, E>(self, r: &mut Reactor<T, E>)
        requires
            old(r).wf(),
            old(r)@.inv(),
            self.inv(old(r)@),
        ensures
            final(r).wf(),
            final(r)@.inv(),
            final(r)@ == drop_step(self@, old(r)@),
    {
        match self.state {
            IoState::Submitted(slot, tag) => {
                r.release_multishot(tag, slot);
            },
            IoState::New => {
            },
        }
    }
}

impl<T: Clone, E> Reactor<T, E> {
    /// Construct a multishot handle tied to this reactor.
    pub fn new_multishot_io(&self) -> (h: MultishotUringIo)
        ensures
            h@ is New,
    {
        MultishotUringIo::new()
    }
}

/// After a handle with a running stream is torn down, its tag no longer
/// routes anywhere — a completion bearing it can reach no store — and
/// its slot is gone from the multishot store.
pub proof fn lemma_multishot_drop_frees_tag<T, E>(m: ReactorModel<T, E>, slot: usize, tag: usize)
    requires
        m.inv(),
        tag < m.pending.len(),
        slot < m.multishot.len(),
        m.multishot[slot as int] is Some,
        !m.multishot[slot as int].unwrap().finished,
    ensures
        ({
            let m1 = drop_step::<T, E>(IoState::Submitted(slot, tag), m);
            &&& !m1.complete_ok(tag as int)
            &&& m1.multishot[slot as int] is None
        }),
{
}

/// Routing one completion never invalidates a live multishot handle:
/// the stream's own events feed or finish its slot, and no other event
/// can reach it.
pub proof fn lemma_complete_preserves_state_inv<T, E>(
    h: IoState,
    m: ReactorModel<T, E>,
    user_data: int,
    result: i32,
    more: bool,
)
    requires
        m.inv(),
        m.complete_ok(user_data),
        state_inv(h, m),
    ensures
        state_inv(h, m.complete_model(user_data, result, more)),
{
    let post = m.complete_model(user_data, result, more);
    match h {
        IoState::New => {
        },
        IoState::Submitted(slot, tag) => {
            let p = m.pending[user_data].unwrap();
            if m.multishot[slot as int].unwrap().finished {
                assert(!(p.kind is Multi && p.result_slab_idx == slot));
                assert(post.multishot[slot as int] == m.multishot[slot as int]);
                assert forall|t: int|
                    0 <= t < post.pending.len() && (#[trigger] post.pending[t]) is Some implies !(
                post.pending[t].unwrap().kind is Multi && post.pending[t].unwrap().result_slab_idx
                    == slot) by {
                    assert(post.pending[t] == m.pending[t]);
                }
            } else {
                if p.kind is Multi && p.result_slab_idx == slot as int {
                    assert(user_data == tag) by {
                        if user_data != tag {
                            assert(m.pending[tag as int].unwrap().kind
                                == m.pending[user_data].unwrap().kind);
                        }
                    }
                    if !more {
                        assert(post.multishot[slot as int].unwrap().finished);
                        assert forall|t: int|
                            0 <= t < post.pending.len() && (#[trigger] post.pending[t]) is Some
                            implies !(post.pending[t].unwrap().kind is Multi
                            && post.pending[t].unwrap().result_slab_idx == slot) by {
                            assert(post.pending[t] == m.pending[t]);
                            assert(t != tag as int);
                            assert(m.pending[t].unwrap().kind == m.pending[tag as int].unwrap().kind
                                ==> m.pending[t].unwrap().result_slab_idx != slot);
                        }
                    }
                } else {
                    if p.kind is Multi {
                        assert(p.result_slab_idx != slot);
                    }
                    assert(post.multishot[slot as int] == m.multishot[slot as int]);
                    assert(post.pending[tag as int] == m.pending[tag as int]);
                }
            }
        },
    }
}

/// Routing a whole batch of completions never invalidates a live
/// multishot handle.
pub proof fn lemma_react_preserves_state_inv<T, E>(
    h: IoState,
    m: ReactorModel<T, E>,
    evs: Seq<crate::reactor::CqEvent>,
)
    requires
        m.inv(),
        m.react_ok(evs),
        state_inv(h, m),
    ensures
        state_inv(h, m.react_model(evs)),
    decreases evs.len(),
{
    if evs.len() > 0 {
        lemma_react_preserves_state_inv(h, m, evs.drop_last());
        crate::reactor::lemma_react_preserves_inv(m, evs.drop_last());
        lemma_complete_preserves_state_inv(
            h,
            m.react_model(evs.drop_last()),
            evs.last().user_data as int,
            evs.last().result,
            evs.last().more,
        );
    }
}

/// The reactor state after `n` polls of a handle whose stream has
/// finished: the first `n` queued values have been taken, in order.
pub open spec fn polled_n<T, E>(h: IoState, m: ReactorModel<T, E>, n: nat) -> (
    IoState,
    ReactorModel<T, E>,
)
    decreases n,
{
    if n == 0 {
        (h, m)
    } else {
        let prev = polled_n(h, m, (n - 1) as nat);
        let s = poll_step(prev.0, prev.1);
        (s.0, s.1)
    }
}

/// The value the poll after `n` earlier polls yields.
pub open spec fn poll_output_after<T, E>(h: IoState, m: ReactorModel<T, E>, n: nat) -> Poll<
    Option<Result<i32, OsError>>,
> {
    poll_step(polled_n(h, m, n).0, polled_n(h, m, n).1).2
}

/// A handle that received `k` values followed by end-of-stream yields
/// exactly those `k` values, in arrival order, and then `Ready(None)`
/// forever: after any `n` polls the handle is still submitted and the
/// slot holds the not-yet-taken tail of the queue.
pub proof fn lemma_multishot_stream_drains<T, E>(
    m: ReactorModel<T, E>,
    slot: usize,
    tag: usize,
    n: nat,
)
    requires
        slot < m.multishot.len(),
        m.multishot[slot as int] is Some,
        m.multishot[slot as int].unwrap().finished,
    ensures
        ({
            let q = m.multishot[slot as int].unwrap().queue;
            let h = IoState::Submitted(slot, tag);
            &&& polled_n(h, m, n).0 == h
            &&& polled_n(h, m, n).1.multishot.len() == m.multishot.len()
            &&& polled_n(h, m, n).1.multishot[slot as int] is Some
            &&& polled_n(h, m, n).1.multishot[slot as int].unwrap().finished
            &&& polled_n(h, m, n).1.multishot[slot as int].unwrap().queue == if n < q.len() {
                q.subrange(n as int, q.len() as int)
            } else {
                Seq::<i32>::empty()
            }
            &&& poll_output_after(h, m, n) == if n < q.len() {
                Poll::Ready(Some(value_to_result(q[n as int])))
            } else {
                Poll::<Option<Result<i32, OsError>>>::Ready(None)
            }
        }),
    decreases n,
{
    let q = m.multishot[slot as int].unwrap().queue;
    let h = IoState::Submitted(slot, tag);
    if n == 0 {
        if q.len() > 0 {
            assert(q.subrange(0, q.len() as int) =~= q);
        }
    } else {
        lemma_multishot_stream_drains(m, slot, tag, (n - 1) as nat);
        let prev = polled_n(h, m, (n - 1) as nat);
        let pq = prev.1.multishot[slot as int].unwrap().queue;
        if n - 1 < q.len() {
            assert(pq =~= q.subrange(n - 1, q.len() as int));
            if n < q.len() {
                assert(pq.subrange(1, pq.len() as int) =~= q.subrange(n as int, q.len() as int));
            } else {
                assert(pq.subrange(1, pq.len() as int) =~= Seq::<i32>::empty());
            }
        }
    }
}

} // verus!
