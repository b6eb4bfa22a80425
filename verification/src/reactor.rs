//! The reactor core: pending table, result stores, and completion routing.
//!
//! The reactor is parametric over the wake-token type `T` (supplied by the
//! executor and carried verbatim from submission to completion) and over
//! the submission-descriptor type `E` (opaque kernel submission-entry
//! bytes, queued here and flushed to the kernel by the embedding runtime).
//!
//! The embedding runtime drives the cycle: it drains the queued
//! submissions with [`Reactor::take_submissions`], stamps each with its
//! tag as the kernel `user_data`, performs the blocking submit-and-wait,
//! and hands every raw completion back to [`Reactor::react`] as plain
//! `(user_data, result, more)` triples. Everything the reactor decides
//! about those triples is verified here.

use crate::slot_table::SlotTable;
use crate::stores::MultishotSlotModel;
use crate::stores::ResultState;
use crate::stores::RingResults;
use crate::stores::MULTISHOT_QUEUE_CAPACITY;
use vstd::prelude::*;

verus! {

use vstd::pervasive::cloned;
use vstd::pervasive::unreached;

/// Capacity of the submission queue. Enqueueing beyond it is
/// over-subscription, a programmer error that callers must rule out.
pub const RING_CAPACITY: usize = 1024;

/// Whether a submission produces exactly one completion or a stream of
/// completions terminated by an end-of-stream marker.
#[derive(Clone, Copy)]
pub enum IoKind {
    Oneshot,
    Multi,
}

/// One live submission: the executor's wake token, the slot reserved for
/// its results, and which store that slot lives in. The pending-table key
/// of this entry is the tag stamped into the kernel submission.
pub struct PendingIo<T> {
    pub assoc_obj: T,
    pub result_slab_idx: usize,
    pub kind: IoKind,
}

/// One raw kernel completion: the tag it was submitted under, the signed
/// result value, and whether more completions of the same submission are
/// coming (`more` is clear on a oneshot completion's only event and on a
/// multishot stream's final, end-of-stream event).
#[derive(Clone, Copy)]
pub struct CqEvent {
    pub user_data: usize,
    pub result: i32,
    pub more: bool,
}

/// Mathematical model of a reactor: the queued submissions and the three
/// tables as sequences over dense keys.
pub struct ReactorModel<T, E> {
    pub sq: Seq<(E, usize)>,
    pub pending: Seq<Option<PendingIo<T>>>,
    pub oneshot: Seq<Option<ResultState>>,
    pub multishot: Seq<Option<MultishotSlotModel>>,
}

impl<T, E> ReactorModel<T, E> {
    /// A pending entry points at a live slot of the store its kind
    /// selects; a oneshot slot still awaiting its completion is never in
    /// the `Delivered` state.
    pub open spec fn entry_ok(self, p: PendingIo<T>) -> bool {
        match p.kind {
            IoKind::Oneshot => p.result_slab_idx < self.oneshot.len() && (self.oneshot[
                p.result_slab_idx as int
            ] == Some(ResultState::Pending) || self.oneshot[p.result_slab_idx as int] == Some(
                ResultState::Dropped,
            )),
            IoKind::Multi => p.result_slab_idx < self.multishot.len() && self.multishot[
                p.result_slab_idx as int
            ] is Some,
        }
    }

    /// The reactor invariant: every pending entry points at a live slot,
    /// and no two pending entries of the same kind share a slot.
    pub open spec fn inv(self) -> bool {
        &&& forall|t: int|
            0 <= t < self.pending.len() ==> match #[trigger] self.pending[t] {
                Some(p) => self.entry_ok(p),
                None => true,
            }
        &&& forall|t1: int, t2: int|
            0 <= t1 < self.pending.len() && 0 <= t2 < self.pending.len() && t1 != t2 && (
            #[trigger] self.pending[t1]) is Some && (#[trigger] self.pending[t2]) is Some
                && self.pending[t1].unwrap().kind == self.pending[t2].unwrap().kind
                ==> self.pending[t1].unwrap().result_slab_idx
                != self.pending[t2].unwrap().result_slab_idx
    }

    /// Both result stores are empty.
    pub open spec fn stores_empty(self) -> bool {
        &&& forall|i: int| 0 <= i < self.oneshot.len() ==> self.oneshot[i] is None
        &&& forall|i: int| 0 <= i < self.multishot.len() ==> self.multishot[i] is None
    }

    /// What `submit_io` does, for the fresh `tag` and `slot` it picked:
    /// the slot is reserved in the store `kind` selects, the pending
    /// entry is created under `tag`, and the descriptor is queued with
    /// that tag.
    pub open spec fn submit_post(
        self,
        post: ReactorModel<T, E>,
        entry: E,
        obj: T,
        kind: IoKind,
        tag: int,
        slot: int,
    ) -> bool {
        let p = PendingIo { assoc_obj: obj, result_slab_idx: slot as usize, kind };
        &&& match kind {
            IoKind::Oneshot => {
                &&& 0 <= slot <= self.oneshot.len()
                &&& slot < self.oneshot.len() ==> self.oneshot[slot] is None && post.oneshot
                    == self.oneshot.update(slot, Some(ResultState::Pending))
                &&& slot == self.oneshot.len() ==> post.oneshot == self.oneshot.push(
                    Some(ResultState::Pending),
                )
                &&& post.multishot == self.multishot
            },
            IoKind::Multi => {
                let fresh = MultishotSlotModel {
                    queue: Seq::empty(),
                    dropped: false,
                    finished: false,
                };
                &&& 0 <= slot <= self.multishot.len()
                &&& slot < self.multishot.len() ==> self.multishot[slot] is None && post.multishot
                    == self.multishot.update(slot, Some(fresh))
                &&& slot == self.multishot.len() ==> post.multishot == self.multishot.push(
                    Some(fresh),
                )
                &&& post.oneshot == self.oneshot
            },
        }
        &&& 0 <= tag <= self.pending.len()
        &&& tag < self.pending.len() ==> self.pending[tag] is None && post.pending
            == self.pending.update(tag, Some(p))
        &&& tag == self.pending.len() ==> post.pending == self.pending.push(Some(p))
        &&& post.sq == self.sq.push((entry, tag as usize))
    }

    /// A completion event can be routed: its tag is a live pending entry.
    pub open spec fn complete_ok(self, user_data: int) -> bool {
        0 <= user_data < self.pending.len() && self.pending[user_data] is Some
    }

    /// How one completion transforms the reactor state. A oneshot
    /// completion resolves its slot (or disposes of a dropped one) and
    /// retires the pending entry. A multishot completion with `more` set
    /// appends to the stream's queue and keeps the entry; the final
    /// completion marks the stream finished (or disposes of a dropped
    /// slot) and retires the entry.
    pub open spec fn complete_model(
        self,
        user_data: int,
        result: i32,
        more: bool,
    ) -> ReactorModel<T, E> {
        let p = self.pending[user_data].unwrap();
        let slot = p.result_slab_idx as int;
        match p.kind {
            IoKind::Oneshot => {
                let oneshot1 = if self.oneshot[slot] == Some(ResultState::Dropped) {
                    self.oneshot.update(slot, None)
                } else {
                    self.oneshot.update(slot, Some(ResultState::Delivered(result)))
                };
                ReactorModel { pending: self.pending.update(user_data, None), oneshot: oneshot1, ..self }
            },
            IoKind::Multi => {
                let s = self.multishot[slot].unwrap();
                if more {
                    let multishot1 = if s.dropped || s.queue.len() >= MULTISHOT_QUEUE_CAPACITY {
                        self.multishot
                    } else {
                        self.multishot.update(
                            slot,
                            Some(MultishotSlotModel { queue: s.queue.push(result), ..s }),
                        )
                    };
                    ReactorModel { multishot: multishot1, ..self }
                } else {
                    let multishot1 = if s.dropped {
                        self.multishot.update(slot, None)
                    } else {
                        self.multishot.update(slot, Some(MultishotSlotModel { finished: true, ..s }))
                    };
                    ReactorModel {
                        pending: self.pending.update(user_data, None),
                        multishot: multishot1,
                        ..self
                    }
                }
            },
        }
    }

    /// The wake token a completion yields.
    pub open spec fn complete_token(self, user_data: int) -> T {
        self.pending[user_data].unwrap().assoc_obj
    }

    /// Every event of the batch can be routed, in order.
    pub open spec fn react_ok(self, evs: Seq<CqEvent>) -> bool
        decreases evs.len(),
    {
        if evs.len() == 0 {
            true
        } else {
            let prefix = evs.drop_last();
            self.react_ok(prefix) && self.react_model(prefix).complete_ok(
                evs.last().user_data as int,
            )
        }
    }

    /// The state after routing a batch of completions, in order.
    pub open spec fn react_model(self, evs: Seq<CqEvent>) -> ReactorModel<T, E>
        decreases evs.len(),
    {
        if evs.len() == 0 {
            self
        } else {
            self.react_model(evs.drop_last()).complete_model(
                evs.last().user_data as int,
                evs.last().result,
                evs.last().more,
            )
        }
    }

    /// The wake tokens a batch of completions yields, in completion-queue
    /// order.
    pub open spec fn react_tokens(self, evs: Seq<CqEvent>) -> Seq<T>
        decreases evs.len(),
    {
        if evs.len() == 0 {
            Seq::empty()
        } else {
            self.react_tokens(evs.drop_last()).push(
                self.react_model(evs.drop_last()).complete_token(evs.last().user_data as int),
            )
        }
    }
}

/// Every prefix of a routable batch is routable.
pub proof fn lemma_react_ok_prefix<T, E>(m: ReactorModel<T, E>, evs: Seq<CqEvent>, i: int)
    requires
        m.react_ok(evs),
        0 <= i <= evs.len(),
    ensures
        m.react_ok(evs.take(i)),
    decreases evs.len() - i,
{
    if i == evs.len() {
        assert(evs.take(i) =~= evs);
    } else {
        lemma_react_ok_prefix(m, evs, i + 1);
        assert(evs.take(i + 1).drop_last() =~= evs.take(i));
    }
}

/// One reactor instance: the submission queue awaiting its flush to the
/// kernel, the pending table keyed by submission tag, and the two result
/// stores.
pub struct Reactor<T, E> {
    sq: Vec<(E, usize)>,
    pending: SlotTable<PendingIo<T>>,
    results: RingResults,
}

impl<T, E> View for Reactor<T, E> {
    type V = ReactorModel<T, E>;

    closed spec fn view(&self) -> ReactorModel<T, E> {
        ReactorModel {
            sq: self.sq@,
            pending: self.pending@,
            oneshot: self.results.oneshot@,
            multishot: self.results.multishot@,
        }
    }
}

impl<T: Clone, E> Reactor<T, E> {
    /// The backing tables are well-formed.
    pub closed spec fn wf(&self) -> bool {
        self.pending.wf() && self.results.wf()
    }

    pub fn new() -> (r: Self)
        ensures
            r.wf(),
            r@.inv(),
            r@.sq == Seq::<(E, usize)>::empty(),
            r@.pending == Seq::<Option<PendingIo<T>>>::empty(),
            r@.oneshot == Seq::<Option<ResultState>>::empty(),
            r@.multishot == Seq::<Option<MultishotSlotModel>>::empty(),
    {
        Reactor { sq: Vec::new(), pending: SlotTable::new(), results: RingResults::new() }
    }

    /// Number of submissions queued and not yet taken by the runtime.
    pub fn sq_len(&self) -> (n: usize)
        ensures
            n == self@.sq.len(),
    {
        self.sq.len()
    }

    /// Whether `user_data` currently tags a live pending entry.
    pub fn has_pending(&self, user_data: usize) -> (r: bool)
        requires
            self.wf(),
        ensures
            r == self@.complete_ok(user_data as int),
    {
        match self.pending.get(user_data) {
            Some(_) => true,
            None => false,
        }
    }

    /// Whether both result stores are empty.
    pub fn stores_empty(&self) -> (r: bool)
        requires
            self.wf(),
        ensures
            r == self@.stores_empty(),
    {
        self.results.is_empty()
    }

    /// Hand the queued submissions to the runtime, in submission order.
    /// The runtime must stamp each descriptor with its tag as the kernel
    /// `user_data` and push it onto the kernel submission queue.
    pub fn take_submissions(&mut self) -> (subs: Vec<(E, usize)>)
        ensures
            subs@ == old(self)@.sq,
            final(self)@ == (ReactorModel { sq: Seq::empty(), ..old(self)@ }),
            old(self).wf() ==> final(self).wf(),
            old(self)@.inv() ==> final(self)@.inv(),
    {
        let mut subs: Vec<(E, usize)> = Vec::new();
        core::mem::swap(&mut self.sq, &mut subs);
        subs
    }

    /// Reserve a result slot and a pending-table tag for a new
    /// submission of the given kind, and queue its descriptor. Returns
    /// `(user_data, result_slot)`: the tag the kernel will echo back and
    /// the slot the handle will poll.
    ///
    /// Enqueueing onto a full submission queue is over-subscription and
    /// is excluded by precondition, mirroring the abort the spec of the
    /// ring demands.
    pub fn submit_io(&mut self, entry: E, obj: T, kind: IoKind) -> (r: (usize, usize))
        requires
            old(self).wf(),
            old(self)@.inv(),
            old(self)@.sq.len() < RING_CAPACITY,
        ensures
            final(self).wf(),
            final(self)@.inv(),
            old(self)@.submit_post(final(self)@, entry, obj, kind, r.0 as int, r.1 as int),
    {
        let result_slab_idx = match kind {
            IoKind::Oneshot => self.results.oneshot.create_slot(),
            IoKind::Multi => self.results.multishot.create_slot(),
        };
        let tag = self.pending.insert(
            PendingIo { assoc_obj: obj, result_slab_idx, kind },
        );
        self.sq.push((entry, tag));
        proof {
            let pre = old(self)@;
            let post = self@;
            let p = PendingIo { assoc_obj: obj, result_slab_idx, kind };
            assert(post.pending[tag as int] == Some(p));
            assert forall|t: int|
                0 <= t < post.pending.len() implies match #[trigger] post.pending[t] {
                Some(q) => post.entry_ok(q),
                None => true,
            } by {
                if post.pending[t] is Some {
                    let q = post.pending[t].unwrap();
                    if t == tag as int {
                        assert(post.entry_ok(q));
                    } else {
                        assert(pre.pending[t] == post.pending[t]);
                        assert(pre.entry_ok(q));
                        match q.kind {
                            IoKind::Oneshot => {
                                assert(q.result_slab_idx != result_slab_idx || !(kind
                                    is Oneshot));
                            },
                            IoKind::Multi => {
                                assert(q.result_slab_idx != result_slab_idx || !(kind is Multi));
                            },
                        }
                        assert(post.entry_ok(q));
                    }
                }
            }
            assert forall|t1: int, t2: int|
                0 <= t1 < post.pending.len() && 0 <= t2 < post.pending.len() && t1 != t2 && (
                #[trigger] post.pending[t1]) is Some && (#[trigger] post.pending[t2]) is Some
                    && post.pending[t1].unwrap().kind == post.pending[t2].unwrap().kind implies
                post.pending[t1].unwrap().result_slab_idx
                    != post.pending[t2].unwrap().result_slab_idx by {
                let q1 = post.pending[t1].unwrap();
                let q2 = post.pending[t2].unwrap();
                if t1 == tag as int {
                    assert(pre.entry_ok(q2));
                } else if t2 == tag as int {
                    assert(pre.entry_ok(q1));
                } else {
                    assert(pre.pending[t1] == post.pending[t1]);
                    assert(pre.pending[t2] == post.pending[t2]);
                }
            }
        }
        (tag, result_slab_idx)
    }

    /// Route one kernel completion: look up the pending entry by tag,
    /// write the result into its slot, retire the entry on a final
    /// completion, and yield the entry's wake token for the executor.
    pub fn complete(&mut self, user_data: usize, result: i32, more: bool) -> (t: T)
        requires
            old(self).wf(),
            old(self)@.inv(),
            old(self)@.complete_ok(user_data as int),
        ensures
            final(self).wf(),
            final(self)@.inv(),
            final(self)@ == old(self)@.complete_model(user_data as int, result, more),
            cloned(old(self)@.complete_token(user_data as int), t),
    {
        let (kind, slot) = match self.pending.get(user_data) {
            Some(p) => (p.kind, p.result_slab_idx),
            None => unreached(),
        };
        let token: T;
        match kind {
            IoKind::Oneshot => {
                let p = self.pending.remove(user_data);
                self.results.oneshot.set_result(result, slot);
                token = p.assoc_obj;
            },
            IoKind::Multi => {
                if more {
                    token = match self.pending.get(user_data) {
                        Some(p) => p.assoc_obj.clone(),
                        None => unreached(),
                    };
                    self.results.multishot.push_result(result, slot);
                } else {
                    let p = self.pending.remove(user_data);
                    self.results.multishot.set_finished(slot);
                    token = p.assoc_obj;
                }
            },
        }
        proof {
            let pre = old(self)@;
            let post = self@;
            let m = pre.complete_model(user_data as int, result, more);
            assert(post.sq =~= m.sq);
            assert(post.pending =~= m.pending);
            assert(post.oneshot =~= m.oneshot);
            assert(post.multishot =~= m.multishot);
            lemma_complete_preserves_inv::<T, E>(pre, user_data as int, result, more);
        }
        token
    }

    /// Route a whole batch of kernel completions in completion-queue
    /// order and return their wake tokens, one per completion, in that
    /// order. The executor drains the returned tokens and invokes each
    /// token's wake action.
    pub fn react(&mut self, events: &Vec<CqEvent>) -> (tokens: Vec<T>)
        requires
            old(self).wf(),
            old(self)@.inv(),
            old(self)@.react_ok(events@),
        ensures
            final(self).wf(),
            final(self)@.inv(),
            final(self)@ == old(self)@.react_model(events@),
            tokens@.len() == events@.len(),
            forall|i: int|
                0 <= i < tokens@.len() ==> cloned(
                    old(self)@.react_tokens(events@)[i],
                    #[trigger] tokens@[i],
                ),
    {
        let ghost m0 = self@;
        let mut tokens: Vec<T> = Vec::new();
        let mut i: usize = 0;
        proof {
            assert(events@.take(0) =~= Seq::<CqEvent>::empty());
        }
        while i < events.len()
            invariant
                0 <= i <= events@.len(),
                self.wf(),
                self@.inv(),
                m0.react_ok(events@),
                self@ == m0.react_model(events@.take(i as int)),
                tokens@.len() == i,
                m0.react_tokens(events@.take(i as int)).len() == i,
                forall|j: int|
                    0 <= j < i ==> cloned(
                        m0.react_tokens(events@.take(i as int))[j],
                        #[trigger] tokens@[j],
                    ),
            decreases events@.len() - i,
        {
            let ev = events[i];
            proof {
                lemma_react_ok_prefix(m0, events@, i + 1);
                assert(events@.take(i + 1).drop_last() =~= events@.take(i as int));
                assert(events@.take(i + 1).last() == events@[i as int]);
            }
            let t = self.complete(ev.user_data, ev.result, ev.more);
            tokens.push(t);
            proof {
                lemma_react_tokens_prefix_stable(m0, events@, i as int);
            }
            i += 1;
        }
        proof {
            assert(events@.take(events@.len() as int) =~= events@);
        }
        tokens
    }

    /// Read the oneshot slot on behalf of its owning handle; a delivered
    /// value is taken and its slot leaves the store.
    pub fn get_oneshot_result(&mut self, idx: usize) -> (res: Option<i32>)
        requires
            old(self).wf(),
            old(self)@.inv(),
            idx < old(self)@.oneshot.len(),
            old(self)@.oneshot[idx as int] is Some,
            old(self)@.oneshot[idx as int] != Some(ResultState::Dropped),
        ensures
            final(self).wf(),
            final(self)@.inv(),
            old(self)@.oneshot[idx as int] == Some(ResultState::Pending) ==> res is None && final(self)@ == old(self)@,
            (match old(self)@.oneshot[idx as int] {
                Some(ResultState::Delivered(v)) => res == Some(v) && final(self)@ == (ReactorModel {
                    oneshot: old(self)@.oneshot.update(idx as int, None),
                    ..old(self)@
                }),
                _ => true,
            }),
    {
        let res = self.results.oneshot.get_result(idx);
        proof {
            lemma_store_edit_preserves_inv::<T, E>(old(self)@, self@, idx as int);
        }
        res
    }

    /// Tear down the oneshot slot of a handle that is being discarded:
    /// a delivered value leaves the store unread, a still-pending slot is
    /// marked so the eventual completion disposes of it.
    pub fn drop_oneshot_result(&mut self, idx: usize)
        requires
            old(self).wf(),
            old(self)@.inv(),
            idx < old(self)@.oneshot.len(),
            old(self)@.oneshot[idx as int] is Some,
            old(self)@.oneshot[idx as int] != Some(ResultState::Dropped),
        ensures
            final(self).wf(),
            final(self)@.inv(),
            old(self)@.oneshot[idx as int] == Some(ResultState::Pending) ==> final(self)@ == (
            ReactorModel {
                oneshot: old(self)@.oneshot.update(idx as int, Some(ResultState::Dropped)),
                ..old(self)@
            }),
            (match old(self)@.oneshot[idx as int] {
                Some(ResultState::Delivered(v)) => final(self)@ == (ReactorModel {
                    oneshot: old(self)@.oneshot.update(idx as int, None),
                    ..old(self)@
                }),
                _ => true,
            }),
    {
        self.results.oneshot.drop_result(idx);
        proof {
            lemma_store_edit_preserves_inv::<T, E>(old(self)@, self@, idx as int);
        }
    }

    /// Take the next queued value of a multishot slot, or report the
    /// stream still running or finished.
    pub fn pop_multishot_result(&mut self, idx: usize) -> (r: crate::stores::MultishotResult)
        requires
            old(self).wf(),
            old(self)@.inv(),
            idx < old(self)@.multishot.len(),
            old(self)@.multishot[idx as int] is Some,
        ensures
            final(self).wf(),
            final(self)@.inv(),
            ({
                let m = old(self)@.multishot[idx as int].unwrap();
                if m.queue.len() > 0 {
                    r == crate::stores::MultishotResult::Value(m.queue[0]) && final(self)@ == (
                    ReactorModel {
                        multishot: old(self)@.multishot.update(
                            idx as int,
                            Some(
                                MultishotSlotModel {
                                    queue: m.queue.subrange(1, m.queue.len() as int),
                                    ..m
                                },
                            ),
                        ),
                        ..old(self)@
                    })
                } else if m.finished {
                    r == crate::stores::MultishotResult::Finished && final(self)@ == old(self)@
                } else {
                    r == crate::stores::MultishotResult::Pending && final(self)@ == old(self)@
                }
            }),
    {
        let r = self.results.multishot.pop_result(idx);
        proof {
            let pre = old(self)@;
            let post = self@;
            assert forall|t: int|
                0 <= t < post.pending.len() implies match #[trigger] post.pending[t] {
                Some(q) => post.entry_ok(q),
                None => true,
            } by {
                if post.pending[t] is Some {
                    assert(pre.entry_ok(post.pending[t].unwrap()));
                }
            }
        }
        r
    }

    /// Whether the kernel has reported end-of-stream for a multishot
    /// slot. The owning handle consults this at teardown: a finished
    /// stream needs no kernel cancellation.
    pub fn multishot_finished(&self, idx: usize) -> (r: bool)
        requires
            self.wf(),
            idx < self@.multishot.len(),
            self@.multishot[idx as int] is Some,
        ensures
            r == self@.multishot[idx as int].unwrap().finished,
    {
        self.results.multishot.is_finished(idx)
    }

    /// Tear down a multishot submission whose handle is being discarded.
    /// If the stream already finished, only its slot remains and leaves
    /// the store. Otherwise the caller has already cancelled the kernel
    /// submission synchronously, so no completion for `user_data` can
    /// ever arrive again: the pending entry is retired — freeing the tag
    /// — and the slot leaves the store.
    pub fn release_multishot(&mut self, user_data: usize, idx: usize)
        requires
            old(self).wf(),
            old(self)@.inv(),
            idx < old(self)@.multishot.len(),
            old(self)@.multishot[idx as int] is Some,
            !old(self)@.multishot[idx as int].unwrap().dropped,
            !old(self)@.multishot[idx as int].unwrap().finished ==> old(self)@.complete_ok(
                user_data as int,
            ) && old(self)@.pending[user_data as int].unwrap().kind is Multi && old(
                self,
            )@.pending[user_data as int].unwrap().result_slab_idx == idx,
            old(self)@.multishot[idx as int].unwrap().finished ==> forall|t: int|
                0 <= t < old(self)@.pending.len() && (#[trigger] old(self)@.pending[t]) is Some
                    ==> !(old(self)@.pending[t].unwrap().kind is Multi && old(
                    self,
                )@.pending[t].unwrap().result_slab_idx == idx),
        ensures
            final(self).wf(),
            final(self)@.inv(),
            old(self)@.multishot[idx as int].unwrap().finished ==> final(self)@ == (ReactorModel {
                multishot: old(self)@.multishot.update(idx as int, None),
                ..old(self)@
            }),
            !old(self)@.multishot[idx as int].unwrap().finished ==> final(self)@ == (ReactorModel {
                pending: old(self)@.pending.update(user_data as int, None),
                multishot: old(self)@.multishot.update(idx as int, None),
                ..old(self)@
            }),
    {
        let finished = self.results.multishot.is_finished(idx);
        if finished {
            self.results.multishot.drop_result(idx);
        } else {
            self.pending.remove(user_data);
            self.results.multishot.drop_result(idx);
            self.results.multishot.set_finished(idx);
            proof {
                assert(self@.multishot =~= old(self)@.multishot.update(idx as int, None));
            }
        }
        proof {
            let pre = old(self)@;
            let post = self@;
            assert forall|t: int|
                0 <= t < post.pending.len() implies match #[trigger] post.pending[t] {
                Some(q) => post.entry_ok(q),
                None => true,
            } by {
                if post.pending[t] is Some {
                    let q = post.pending[t].unwrap();
                    assert(pre.pending[t] == post.pending[t]);
                    assert(pre.entry_ok(q));
                    if q.kind is Multi {
                        if !finished {
                            assert(t != user_data as int);
                            assert(q.result_slab_idx != idx);
                        } else {
                            assert(q.result_slab_idx != idx);
                        }
                    }
                }
            }
            assert forall|t1: int, t2: int|
                0 <= t1 < post.pending.len() && 0 <= t2 < post.pending.len() && t1 != t2 && (
                #[trigger] post.pending[t1]) is Some && (#[trigger] post.pending[t2]) is Some
                    && post.pending[t1].unwrap().kind == post.pending[t2].unwrap().kind implies
                post.pending[t1].unwrap().result_slab_idx
                    != post.pending[t2].unwrap().result_slab_idx by {
                assert(pre.pending[t1] == post.pending[t1]);
                assert(pre.pending[t2] == post.pending[t2]);
            }
        }
    }
}

/// Editing a oneshot slot that no pending entry may reference — taking a
/// delivered value, marking a drop — preserves the reactor invariant.
proof fn lemma_store_edit_preserves_inv<T, E>(
    pre: ReactorModel<T, E>,
    post: ReactorModel<T, E>,
    idx: int,
)
    requires
        pre.inv(),
        post.pending == pre.pending,
        post.multishot == pre.multishot,
        post.oneshot.len() == pre.oneshot.len(),
        forall|i: int| 0 <= i < pre.oneshot.len() && i != idx ==> post.oneshot[i] == pre.oneshot[i],
        0 <= idx < pre.oneshot.len(),
        (pre.oneshot[idx] == Some(ResultState::Pending) || pre.oneshot[idx] == Some(
            ResultState::Dropped,
        )) ==> (post.oneshot[idx] == Some(ResultState::Pending) || post.oneshot[idx] == Some(
            ResultState::Dropped,
        )),
    ensures
        post.inv(),
{
    assert forall|t: int|
        0 <= t < post.pending.len() implies match #[trigger] post.pending[t] {
        Some(q) => post.entry_ok(q),
        None => true,
    } by {
        if post.pending[t] is Some {
            let q = post.pending[t].unwrap();
            assert(pre.entry_ok(q));
            if q.kind is Oneshot && q.result_slab_idx == idx {
                assert(post.entry_ok(q));
            }
        }
    }
}

/// Extending a batch by one event leaves the earlier tokens in place.
proof fn lemma_react_tokens_prefix_stable<T, E>(m: ReactorModel<T, E>, evs: Seq<CqEvent>, i: int)
    requires
        0 <= i < evs.len(),
    ensures
        evs.take(i + 1).drop_last() =~= evs.take(i),
        m.react_tokens(evs.take(i + 1)).len() == m.react_tokens(evs.take(i)).len() + 1,
        forall|j: int|
            0 <= j < m.react_tokens(evs.take(i)).len() ==> m.react_tokens(evs.take(i + 1))[j]
                == m.react_tokens(evs.take(i))[j],
        m.react_tokens(evs.take(i + 1)).last() == m.react_model(evs.take(i)).complete_token(
            evs[i].user_data as int,
        ),
    decreases evs.len() - i,
{
    assert(evs.take(i + 1).drop_last() =~= evs.take(i));
    assert(evs.take(i + 1).last() == evs[i]);
    lemma_react_tokens_len(m, evs.take(i));
}

/// A batch yields exactly one token per event.
pub proof fn lemma_react_tokens_len<T, E>(m: ReactorModel<T, E>, evs: Seq<CqEvent>)
    ensures
        m.react_tokens(evs).len() == evs.len(),
    decreases evs.len(),
{
    if evs.len() > 0 {
        lemma_react_tokens_len(m, evs.drop_last());
    }
}

/// Routing a whole batch preserves the reactor invariant.
pub proof fn lemma_react_preserves_inv<T, E>(m: ReactorModel<T, E>, evs: Seq<CqEvent>)
    requires
        m.inv(),
        m.react_ok(evs),
    ensures
        m.react_model(evs).inv(),
    decreases evs.len(),
{
    if evs.len() > 0 {
        lemma_react_preserves_inv(m, evs.drop_last());
        lemma_complete_preserves_inv(
            m.react_model(evs.drop_last()),
            evs.last().user_data as int,
            evs.last().result,
            evs.last().more,
        );
    }
}

/// Routing one completion preserves the reactor invariant.
pub proof fn lemma_complete_preserves_inv<T, E>(
    m: ReactorModel<T, E>,
    user_data: int,
    result: i32,
    more: bool,
)
    requires
        m.inv(),
        m.complete_ok(user_data),
    ensures
        m.complete_model(user_data, result, more).inv(),
{
    let post = m.complete_model(user_data, result, more);
    let p = m.pending[user_data].unwrap();
    let slot = p.result_slab_idx as int;
    assert forall|t: int|
        0 <= t < post.pending.len() implies match #[trigger] post.pending[t] {
        Some(q) => post.entry_ok(q),
        None => true,
    } by {
        if post.pending[t] is Some {
            let q = post.pending[t].unwrap();
            assert(m.pending[t] == post.pending[t]);
            assert(m.entry_ok(q));
            if t != user_data {
                match q.kind {
                    IoKind::Oneshot => {
                        if p.kind is Oneshot {
                            assert(q.result_slab_idx != p.result_slab_idx);
                        }
                        assert(post.entry_ok(q));
                    },
                    IoKind::Multi => {
                        if p.kind is Multi {
                            assert(q.result_slab_idx != p.result_slab_idx);
                        }
                        assert(post.entry_ok(q));
                    },
                }
            }
        }
    }
    assert forall|t1: int, t2: int|
        0 <= t1 < post.pending.len() && 0 <= t2 < post.pending.len() && t1 != t2 && (
        #[trigger] post.pending[t1]) is Some && (#[trigger] post.pending[t2]) is Some
            && post.pending[t1].unwrap().kind == post.pending[t2].unwrap().kind implies
        post.pending[t1].unwrap().result_slab_idx != post.pending[t2].unwrap().result_slab_idx by {
        assert(m.pending[t1] == post.pending[t1]);
        assert(m.pending[t2] == post.pending[t2]);
    }
}

} // verus!
