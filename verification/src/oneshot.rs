//! The oneshot I/O handle: one logical submission, exactly one completion.
//!
//! The handle walks `New -> Submitted(slot) -> Finished(v)`. Its first
//! poll obtains a submission descriptor and wake token from the caller's
//! providers and enqueues the submission; later polls inspect the result
//! slot; once finished, polls answer from the cached value forever. A
//! handle discarded while submitted marks its slot so the eventual
//! kernel completion tears it down — the submission itself is not
//! cancelled.

use crate::io::value_to_result;
use crate::io::OsError;
use crate::io::Poll;
use crate::reactor::IoKind;
use crate::reactor::Reactor;
use crate::reactor::ReactorModel;
use crate::reactor::RING_CAPACITY;
use crate::stores::ResultState;
use vstd::prelude::*;

verus! {

/// State of a oneshot handle.
#[derive(Clone, Copy)]
pub enum IoState {
    New,
    Submitted(usize),
    Finished(i32),
}

/// A oneshot I/O handle. All reactor state it manipulates is passed in
/// explicitly, so the handle itself is just the state machine.
pub struct OneshotUringIo {
    state: IoState,
}

impl View for OneshotUringIo {
    type V = IoState;

    closed spec fn view(&self) -> IoState {
        self.state
    }
}

/// What one poll of a submitted or finished handle does to the handle,
/// the reactor, and the caller: a delivered value is taken out of the
/// store and cached; anything else leaves both untouched.
pub open spec fn poll_step<T, E>(h: IoState, m: ReactorModel<T, E>) -> (
    IoState,
    ReactorModel<T, E>,
    Poll<Result<i32, OsError>>,
) {
    match h {
        IoState::New => (h, m, Poll::Pending),
        IoState::Submitted(slot) => match m.oneshot[slot as int] {
            Some(ResultState::Delivered(v)) => (
                IoState::Finished(v),
                ReactorModel { oneshot: m.oneshot.update(slot as int, None), ..m },
                Poll::Ready(value_to_result(v)),
            ),
            _ => (h, m, Poll::Pending),
        },
        IoState::Finished(v) => (h, m, Poll::Ready(value_to_result(v))),
    }
}

/// What discarding a handle does to the reactor: an unread delivered
/// value leaves the store; a slot still awaiting its completion is
/// marked `Dropped` so the completion disposes of it.
pub open spec fn drop_step<T, E>(h: IoState, m: ReactorModel<T, E>) -> ReactorModel<T, E> {
    match h {
        IoState::Submitted(slot) => match m.oneshot[slot as int] {
            Some(ResultState::Pending) => ReactorModel {
                oneshot: m.oneshot.update(slot as int, Some(ResultState::Dropped)),
                ..m
            },
            Some(ResultState::Delivered(v)) => ReactorModel {
                oneshot: m.oneshot.update(slot as int, None),
                ..m
            },
            _ => m,
        },
        _ => m,
    }
}

/// A live submitted handle owns a slot that is awaiting its completion
/// or holding the delivered value; only the handle's own drop can put
/// the slot in the `Dropped` state, so a live handle never sees it.
pub open spec fn state_inv<T, E>(h: IoState, m: ReactorModel<T, E>) -> bool {
    match h {
        IoState::Submitted(slot) => slot < m.oneshot.len() && (m.oneshot[slot as int] == Some(
            ResultState::Pending,
        ) || (m.oneshot[slot as int] matches Some(ResultState::Delivered(_)))),
        _ => true,
    }
}

impl OneshotUringIo {
    /// The handle's obligation on the reactor it polls against.
    pub open spec fn inv<T, E>(self, m: ReactorModel<T, E>) -> bool {
        state_inv(self@, m)
    }

    pub fn new() -> (h: Self)
        ensures
            h@ is New,
    {
        OneshotUringIo { state: IoState::New }
    }

    /// Drive the handle. On the first call the two providers are invoked
    /// for the submission descriptor and its wake token, the submission
    /// is enqueued and `Pending` returned; afterwards the result slot is
    /// consulted until the kernel's value is ready, and the decoded value
    /// is then returned on every call.
    pub fn submit_or_get_result<T: Clone, E, F: FnOnce() -> (E, T)>(
        &mut self,
        r: &mut Reactor<T, E>,
        f: F,
    ) -> (p: Poll<Result<i32, OsError>>)
        requires
            old(r).wf(),
            old(r)@.inv(),
            old(self).inv(old(r)@),
            old(self)@ is New ==> call_requires(f, ()) && old(r)@.sq.len() < RING_CAPACITY,
        ensures
            final(r).wf(),
            final(r)@.inv(),
            final(self).inv(final(r)@),
            old(self)@ is New ==> p is Pending && final(self)@ is Submitted && exists|
                entry: E,
                obj: T,
                tag: int,
                slot: int,
            |
                call_ensures(f, (), (entry, obj)) && #[trigger] old(r)@.submit_post(
                    final(r)@,
                    entry,
                    obj,
                    IoKind::Oneshot,
                    tag,
                    slot,
                ) && final(self)@ == IoState::Submitted(slot as usize),
            !(old(self)@ is New) ==> (final(self)@, final(r)@, p) == poll_step(
                old(self)@,
                old(r)@,
            ),
    {
        match self.state {
            IoState::New => {
                let (entry, obj) = f();
                let (user_data, result_slot) = r.submit_io(entry, obj, IoKind::Oneshot);
                self.state = IoState::Submitted(result_slot);
                Poll::Pending
            },
            IoState::Submitted(slot) => {
                match r.get_oneshot_result(slot) {
                    Some(v) => {
                        self.state = IoState::Finished(v);
                        Poll::Ready(crate::io::reactor_value_to_result(v))
                    },
                    None => Poll::Pending,
                }
            },
            IoState::Finished(v) => Poll::Ready(crate::io::reactor_value_to_result(v)),
        }
    }

    /// Tear the handle down. A submitted handle hands its slot back to
    /// the store's drop rules; the kernel submission is left to run to
    /// completion, which will dispose of the marked slot.
    pub fn drop_io<T: Clone, E>(self, r: &mut Reactor<T, E>)
        requires
            old(r).wf(),
            old(r)@.inv(),
            self.inv(old(r)@),
        ensures
            final(r).wf(),
            final(r)@.inv(),
            final(r)@ == drop_step(self@, old(r)@),
    {
        match self.state {
            IoState::Submitted(slot) => {
                r.drop_oneshot_result(slot);
            },
            _ => {
            },
        }
    }
}

impl<T: Clone, E> Reactor<T, E> {
    /// Construct a oneshot handle tied to this reactor.
    pub fn new_io(&self) -> (h: OneshotUringIo)
        ensures
            h@ is New,
    {
        OneshotUringIo::new()
    }
}

/// A completion delivered to a submitted oneshot handle is observed by
/// the very next poll: the poll takes the kernel's value, caches it, and
/// retires the slot. The completion itself already retired the pending
/// entry and yielded the wake token.
pub proof fn lemma_oneshot_completion_wakes<T, E>(
    m: ReactorModel<T, E>,
    tag: int,
    v: i32,
    more: bool,
)
    requires
        m.inv(),
        m.complete_ok(tag),
        m.pending[tag].unwrap().kind is Oneshot,
        m.oneshot[m.pending[tag].unwrap().result_slab_idx as int] == Some(ResultState::Pending),
    ensures
        ({
            let slot = m.pending[tag].unwrap().result_slab_idx;
            let m1 = m.complete_model(tag, v, more);
            &&& m1.oneshot[slot as int] == Some(ResultState::Delivered(v))
            &&& m1.pending[tag] is None
            &&& poll_step(IoState::Submitted(slot), m1).0 == IoState::Finished(v)
            &&& poll_step(IoState::Submitted(slot), m1).2 == Poll::Ready(value_to_result(v))
            &&& poll_step(IoState::Submitted(slot), m1).1.oneshot[slot as int] is None
        }),
{
}

/// A oneshot handle dropped while submitted leaves no residue once the
/// kernel's completion is routed: the completion disposes of the marked
/// slot, retires the pending entry, and still yields the wake token.
pub proof fn lemma_oneshot_drop_then_complete_clears<T, E>(
    m: ReactorModel<T, E>,
    tag: int,
    v: i32,
    more: bool,
)
    requires
        m.inv(),
        m.complete_ok(tag),
        m.pending[tag].unwrap().kind is Oneshot,
        m.oneshot[m.pending[tag].unwrap().result_slab_idx as int] == Some(ResultState::Pending),
    ensures
        ({
            let slot = m.pending[tag].unwrap().result_slab_idx;
            let m1 = drop_step(IoState::Submitted(slot), m);
            let m2 = m1.complete_model(tag, v, more);
            &&& m1.oneshot[slot as int] == Some(ResultState::Dropped)
            &&& m2.oneshot[slot as int] is None
            &&& m2.pending[tag] is None
            &&& m1.complete_token(tag) == m.complete_token(tag)
        }),
{
}

/// Routing one completion never invalidates a live oneshot handle: the
/// handle's slot either receives its value or is left alone.
pub proof fn lemma_complete_preserves_state_inv<T, E>(
    h: IoState,
    m: ReactorModel<T, E>,
    user_data: int,
    result: i32,
    more: bool,
)
    requires
        m.inv(),
        m.complete_ok(user_data),
        state_inv(h, m),
    ensures
        state_inv(h, m.complete_model(user_data, result, more)),
{
}

/// Routing a whole batch of completions never invalidates a live
/// oneshot handle.
pub proof fn lemma_react_preserves_state_inv<T, E>(
    h: IoState,
    m: ReactorModel<T, E>,
    evs: Seq<crate::reactor::CqEvent>,
)
    requires
        m.inv(),
        m.react_ok(evs),
        state_inv(h, m),
    ensures
        state_inv(h, m.react_model(evs)),
    decreases evs.len(),
{
    if evs.len() > 0 {
        lemma_react_preserves_state_inv(h, m, evs.drop_last());
        crate::reactor::lemma_react_preserves_inv(m, evs.drop_last());
        lemma_complete_preserves_state_inv(
            h,
            m.react_model(evs.drop_last()),
            evs.last().user_data as int,
            evs.last().result,
            evs.last().more,
        );
    }
}

/// Polling a finished handle is idempotent: every poll returns the same
/// ready value and changes neither the handle nor the reactor.
pub proof fn lemma_finished_poll_idempotent<T, E>(m: ReactorModel<T, E>, v: i32)
    ensures
        poll_step::<T, E>(IoState::Finished(v), m) == (
            IoState::Finished(v),
            m,
            Poll::<Result<i32, OsError>>::Ready(value_to_result(v)),
        ),
        poll_step::<T, E>(poll_step::<T, E>(IoState::Finished(v), m).0, poll_step::<T, E>(
            IoState::Finished(v),
            m,
        ).1) == poll_step::<T, E>(IoState::Finished(v), m),
{
}

/// Polling a submitted handle whose completion has not yet been routed
/// is idempotent: the poll reports pending and changes nothing.
pub proof fn lemma_pending_poll_idempotent<T, E>(m: ReactorModel<T, E>, slot: usize)
    requires
        m.oneshot[slot as int] == Some(ResultState::Pending),
    ensures
        poll_step::<T, E>(IoState::Submitted(slot), m) == (
            IoState::Submitted(slot),
            m,
            Poll::<Result<i32, OsError>>::Pending,
        ),
{
}

} // verus!
