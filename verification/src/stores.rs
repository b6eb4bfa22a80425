//! The oneshot and multishot result stores.
//!
//! Both stores are slot tables of result cells. A oneshot cell holds at
//! most one completion value and resolves the race between kernel
//! delivery and the owning handle being dropped. A multishot cell holds
//! a bounded queue of values plus the `dropped` and `finished` markers
//! that tell "no data yet" apart from "no more data ever".

use crate::slot_table::SlotTable;
use std::collections::VecDeque;
use vstd::prelude::*;

verus! {

use vstd::pervasive::unreached;

/// Capacity of one multishot result queue. A value arriving while the
/// queue is full is discarded; the embedding runtime must bound the
/// number of outstanding results per stream below this.
pub const MULTISHOT_QUEUE_CAPACITY: usize = 1024;

/// Lifecycle of one oneshot result cell.
///
/// `Pending` is the initial state. The reactor moves the cell to `Delivered`
/// when the kernel delivers; the owning handle moves it to `Dropped`
/// when it is discarded first. The cell leaves the store when the other
/// party arrives: the reader takes a `Delivered` value, and a completion
/// disposes of a `Dropped` cell.
#[derive(Clone, Copy)]
pub enum ResultState {
    Pending,
    Delivered(i32),
    Dropped,
}

/// Store of oneshot result cells, keyed by dense slot ids.
pub struct OneshotStore {
    table: SlotTable<ResultState>,
}

impl View for OneshotStore {
    type V = Seq<Option<ResultState>>;

    closed spec fn view(&self) -> Seq<Option<ResultState>> {
        self.table@
    }
}

impl OneshotStore {
    pub closed spec fn wf(&self) -> bool {
        self.table.wf()
    }

    /// No slot is occupied.
    pub open spec fn spec_is_empty(&self) -> bool {
        forall|i: int| 0 <= i < self@.len() ==> self@[i] is None
    }

    pub fn new() -> (s: Self)
        ensures
            s.wf(),
            s@ == Seq::<Option<ResultState>>::empty(),
    {
        OneshotStore { table: SlotTable::new() }
    }

    pub fn is_empty(&self) -> (r: bool)
        requires
            self.wf(),
        ensures
            r == self.spec_is_empty(),
    {
        self.table.is_empty()
    }

    /// Allocate a fresh slot in state `Pending` and return its id.
    pub fn create_slot(&mut self) -> (idx: usize)
        requires
            old(self).wf(),
        ensures
            final(self).wf(),
            idx <= old(self)@.len(),
            idx < old(self)@.len() ==> old(self)@[idx as int] is None && final(self)@ == old(
                self,
            )@.update(idx as int, Some(ResultState::Pending)),
            idx == old(self)@.len() ==> final(self)@ == old(self)@.push(
                Some(ResultState::Pending),
            ),
    {
        self.table.insert(ResultState::Pending)
    }

    /// Record the kernel's completion value. A `Pending` cell becomes
    /// `Delivered`; a `Dropped` cell is disposed of, since its reader is gone
    /// and the kernel has now delivered. The cell cannot be `Delivered`: a
    /// oneshot submission completes at most once.
    pub fn set_result(&mut self, result: i32, idx: usize)
        requires
            old(self).wf(),
            idx < old(self)@.len(),
            old(self)@[idx as int] == Some(ResultState::Pending) || old(self)@[idx as int] == Some(
                ResultState::Dropped,
            ),
        ensures
            final(self).wf(),
            old(self)@[idx as int] == Some(ResultState::Pending) ==> final(self)@ == old(
                self,
            )@.update(idx as int, Some(ResultState::Delivered(result))),
            old(self)@[idx as int] == Some(ResultState::Dropped) ==> final(self)@ == old(
                self,
            )@.update(idx as int, None),
    {
        let prev = self.table.remove(idx);
        match prev {
            ResultState::Pending => {
                self.table.insert(ResultState::Delivered(result));
                proof {
                    assert(self@ =~= old(self)@.update(
                        idx as int,
                        Some(ResultState::Delivered(result)),
                    ));
                }
            },
            ResultState::Dropped => {
            },
            ResultState::Delivered(_) => unreached(),
        }
    }

    /// Read the slot on behalf of the owning handle. `Pending` yields
    /// nothing; a `Delivered` value is taken and the slot leaves the store.
    /// Reading a `Dropped` slot is forbidden: only the owning handle may
    /// read, and it no longer exists.
    pub fn get_result(&mut self, idx: usize) -> (r: Option<i32>)
        requires
            old(self).wf(),
            idx < old(self)@.len(),
            old(self)@[idx as int] is Some,
            old(self)@[idx as int] != Some(ResultState::Dropped),
        ensures
            final(self).wf(),
            old(self)@[idx as int] == Some(ResultState::Pending) ==> r is None && final(self)@
                == old(self)@,
            (match old(self)@[idx as int] {
                Some(ResultState::Delivered(v)) => r == Some(v) && final(self)@ == old(self)@.update(
                    idx as int,
                    None,
                ),
                _ => true,
            }),
    {
        let current = match self.table.get(idx) {
            Some(st) => *st,
            None => unreached(),
        };
        match current {
            ResultState::Pending => None,
            ResultState::Delivered(v) => {
                self.table.remove(idx);
                Some(v)
            },
            ResultState::Dropped => unreached(),
        }
    }

    /// Called when the owning handle is discarded. A `Delivered` value is no
    /// longer wanted and its slot leaves the store; a `Pending` slot is
    /// marked `Dropped` so the eventual completion disposes of it.
    pub fn drop_result(&mut self, idx: usize)
        requires
            old(self).wf(),
            idx < old(self)@.len(),
            old(self)@[idx as int] == Some(ResultState::Pending) || (match old(self)@[idx as int] {
                Some(ResultState::Delivered(_)) => true,
                _ => false,
            }),
        ensures
            final(self).wf(),
            old(self)@[idx as int] == Some(ResultState::Pending) ==> final(self)@ == old(
                self,
            )@.update(idx as int, Some(ResultState::Dropped)),
            (match old(self)@[idx as int] {
                Some(ResultState::Delivered(_)) => final(self)@ == old(self)@.update(idx as int, None),
                _ => true,
            }),
    {
        let prev = self.table.remove(idx);
        match prev {
            ResultState::Pending => {
                self.table.insert(ResultState::Dropped);
                proof {
                    assert(self@ =~= old(self)@.update(
                        idx as int,
                        Some(ResultState::Dropped),
                    ));
                }
            },
            ResultState::Delivered(_) => {
            },
            ResultState::Dropped => unreached(),
        }
    }
}

/// One multishot result cell: a bounded queue of completion values and
/// the two teardown markers.
pub struct MultishotResultState {
    results: VecDeque<i32>,
    dropped: bool,
    finished: bool,
}

/// Mathematical model of a multishot cell.
pub struct MultishotSlotModel {
    pub queue: Seq<i32>,
    pub dropped: bool,
    pub finished: bool,
}

impl View for MultishotResultState {
    type V = MultishotSlotModel;

    closed spec fn view(&self) -> MultishotSlotModel {
        MultishotSlotModel { queue: self.results@, dropped: self.dropped, finished: self.finished }
    }
}

/// What one poll of a multishot slot yields.
pub enum MultishotResult {
    /// The next value of the stream, in arrival order.
    Value(i32),
    /// The stream has no value queued but may produce more.
    Pending,
    /// The stream has no value queued and the kernel reported
    /// end-of-stream: no value will ever arrive again.
    Finished,
}

/// Store of multishot result cells, keyed by dense slot ids.
pub struct MultishotStore {
    table: SlotTable<MultishotResultState>,
}

impl View for MultishotStore {
    type V = Seq<Option<MultishotSlotModel>>;

    closed spec fn view(&self) -> Seq<Option<MultishotSlotModel>> {
        Seq::new(
            self.table@.len(),
            |i: int|
                match self.table@[i] {
                    Some(s) => Some(s@),
                    None => None,
                },
        )
    }
}

impl MultishotStore {
    pub closed spec fn wf(&self) -> bool {
        self.table.wf()
    }

    /// No slot is occupied.
    pub open spec fn spec_is_empty(&self) -> bool {
        forall|i: int| 0 <= i < self@.len() ==> self@[i] is None
    }

    fn new() -> (s: Self)
        ensures
            s.wf(),
            s@ == Seq::<Option<MultishotSlotModel>>::empty(),
    {
        let s = MultishotStore { table: SlotTable::new() };
        proof {
            assert(s@ =~= Seq::<Option<MultishotSlotModel>>::empty());
        }
        s
    }

    pub fn is_empty(&self) -> (r: bool)
        requires
            self.wf(),
        ensures
            r == self.spec_is_empty(),
    {
        let r = self.table.is_empty();
        proof {
            if r {
                assert forall|i: int| 0 <= i < self@.len() implies self@[i] is None by {
                    assert(self.table@[i] is None);
                }
            } else {
                let i = choose|i: int|
                    0 <= i < self.table@.len() && !(self.table@[i] is None);
                assert(self@[i] is Some);
            }
        }
        r
    }

    /// Allocate a fresh slot with an empty queue and clear markers.
    pub fn create_slot(&mut self) -> (idx: usize)
        requires
            old(self).wf(),
        ensures
            final(self).wf(),
            idx <= old(self)@.len(),
            idx < old(self)@.len() ==> old(self)@[idx as int] is None && final(self)@ == old(
                self,
            )@.update(
                idx as int,
                Some(MultishotSlotModel { queue: Seq::empty(), dropped: false, finished: false }),
            ),
            idx == old(self)@.len() ==> final(self)@ == old(self)@.push(
                Some(MultishotSlotModel { queue: Seq::empty(), dropped: false, finished: false }),
            ),
    {
        let cell = MultishotResultState {
            results: VecDeque::new(),
            dropped: false,
            finished: false,
        };
        let idx = self.table.insert(cell);
        proof {
            let m = MultishotSlotModel { queue: Seq::empty(), dropped: false, finished: false };
            if idx < old(self)@.len() {
                assert(self@ =~= old(self)@.update(idx as int, Some(m)));
            } else {
                assert(self@ =~= old(self)@.push(Some(m)));
            }
        }
        idx
    }

    /// Append a completion value to the slot's queue, in arrival order.
    /// A value for a dropped slot is a late completion already in flight
    /// and is discarded; a value arriving on a full queue is discarded.
    pub fn push_result(&mut self, result: i32, idx: usize)
        requires
            old(self).wf(),
            idx < old(self)@.len(),
            old(self)@[idx as int] is Some,
        ensures
            final(self).wf(),
            ({
                let m = old(self)@[idx as int].unwrap();
                if m.dropped || m.queue.len() >= MULTISHOT_QUEUE_CAPACITY {
                    final(self)@ == old(self)@
                } else {
                    final(self)@ == old(self)@.update(
                        idx as int,
                        Some(MultishotSlotModel { queue: m.queue.push(result), ..m }),
                    )
                }
            }),
    {
        let mut cell = self.table.remove(idx);
        let appended = !cell.dropped && cell.results.len() < MULTISHOT_QUEUE_CAPACITY;
        if appended {
            cell.results.push_back(result);
        }
        self.table.insert(cell);
        proof {
            let m = old(self)@[idx as int].unwrap();
            if appended {
                assert(self@ =~= old(self)@.update(
                    idx as int,
                    Some(MultishotSlotModel { queue: m.queue.push(result), ..m }),
                ));
            } else {
                assert(self@ =~= old(self)@);
            }
        }
    }

    /// Take the next queued value, or report why there is none: the
    /// stream is still running (`Pending`) or has ended (`Finished`).
    pub fn pop_result(&mut self, idx: usize) -> (r: MultishotResult)
        requires
            old(self).wf(),
            idx < old(self)@.len(),
            old(self)@[idx as int] is Some,
        ensures
            final(self).wf(),
            ({
                let m = old(self)@[idx as int].unwrap();
                if m.queue.len() > 0 {
                    r == MultishotResult::Value(m.queue[0]) && final(self)@ == old(self)@.update(
                        idx as int,
                        Some(
                            MultishotSlotModel {
                                queue: m.queue.subrange(1, m.queue.len() as int),
                                ..m
                            },
                        ),
                    )
                } else if m.finished {
                    r == MultishotResult::Finished && final(self)@ == old(self)@
                } else {
                    r == MultishotResult::Pending && final(self)@ == old(self)@
                }
            }),
    {
        let mut cell = self.table.remove(idx);
        let popped = cell.results.pop_front();
        let finished = cell.finished;
        self.table.insert(cell);
        proof {
            let m = old(self)@[idx as int].unwrap();
            if m.queue.len() > 0 {
                assert(self@ =~= old(self)@.update(
                    idx as int,
                    Some(
                        MultishotSlotModel { queue: m.queue.subrange(1, m.queue.len() as int), ..m },
                    ),
                ));
            } else {
                assert(self@ =~= old(self)@);
            }
        }
        match popped {
            Some(v) => MultishotResult::Value(v),
            None => if finished {
                MultishotResult::Finished
            } else {
                MultishotResult::Pending
            },
        }
    }

    /// Record the kernel's end-of-stream report. If the owning handle is
    /// already gone the slot leaves the store; otherwise the `finished`
    /// marker is set so readers learn the stream has ended.
    pub fn set_finished(&mut self, idx: usize)
        requires
            old(self).wf(),
            idx < old(self)@.len(),
            old(self)@[idx as int] is Some,
        ensures
            final(self).wf(),
            ({
                let m = old(self)@[idx as int].unwrap();
                if m.dropped {
                    final(self)@ == old(self)@.update(idx as int, None)
                } else {
                    final(self)@ == old(self)@.update(
                        idx as int,
                        Some(MultishotSlotModel { finished: true, ..m }),
                    )
                }
            }),
    {
        let mut cell = self.table.remove(idx);
        let keep = !cell.dropped;
        if keep {
            cell.finished = true;
            self.table.insert(cell);
        }
        proof {
            let m = old(self)@[idx as int].unwrap();
            if keep {
                assert(self@ =~= old(self)@.update(
                    idx as int,
                    Some(MultishotSlotModel { finished: true, ..m }),
                ));
            } else {
                assert(self@ =~= old(self)@.update(idx as int, None));
            }
        }
    }

    /// Whether the kernel has reported end-of-stream for this slot.
    pub fn is_finished(&self, idx: usize) -> (r: bool)
        requires
            self.wf(),
            idx < self@.len(),
            self@[idx as int] is Some,
        ensures
            r == self@[idx as int].unwrap().finished,
    {
        match self.table.get(idx) {
            Some(cell) => cell.finished,
            None => unreached(),
        }
    }

    /// Called when the owning handle is discarded. A finished slot is no
    /// longer needed and leaves the store; otherwise the `dropped` marker
    /// is set so a late completion disposes of it.
    pub fn drop_result(&mut self, idx: usize)
        requires
            old(self).wf(),
            idx < old(self)@.len(),
            old(self)@[idx as int] is Some,
        ensures
            final(self).wf(),
            ({
                let m = old(self)@[idx as int].unwrap();
                if m.finished {
                    final(self)@ == old(self)@.update(idx as int, None)
                } else {
                    final(self)@ == old(self)@.update(
                        idx as int,
                        Some(MultishotSlotModel { dropped: true, ..m }),
                    )
                }
            }),
    {
        let mut cell = self.table.remove(idx);
        let keep = !cell.finished;
        if keep {
            cell.dropped = true;
            self.table.insert(cell);
        }
        proof {
            let m = old(self)@[idx as int].unwrap();
            if keep {
                assert(self@ =~= old(self)@.update(
                    idx as int,
                    Some(MultishotSlotModel { dropped: true, ..m }),
                ));
            } else {
                assert(self@ =~= old(self)@.update(idx as int, None));
            }
        }
    }
}

/// The two result stores of one reactor instance.
pub struct RingResults {
    pub oneshot: OneshotStore,
    pub multishot: MultishotStore,
}

impl RingResults {
    pub open spec fn wf(&self) -> bool {
        self.oneshot.wf() && self.multishot.wf()
    }

    pub fn new() -> (r: Self)
        ensures
            r.wf(),
            r.oneshot@ == Seq::<Option<ResultState>>::empty(),
            r.multishot@ == Seq::<Option<MultishotSlotModel>>::empty(),
    {
        RingResults { oneshot: OneshotStore::new(), multishot: MultishotStore::new() }
    }

    pub fn get_oneshot(&mut self) -> (s: &mut OneshotStore)
        ensures
            *s == old(self).oneshot,
            *final(self) == (RingResults { oneshot: *final(s), multishot: old(self).multishot }),
    {
        &mut self.oneshot
    }

    pub fn get_multishot(&mut self) -> (s: &mut MultishotStore)
        ensures
            *s == old(self).multishot,
            *final(self) == (RingResults { oneshot: old(self).oneshot, multishot: *final(s) }),
    {
        &mut self.multishot
    }

    /// Whether both stores are empty: the quiescent state, with no
    /// submission outstanding and no result awaiting its reader.
    pub fn is_empty(&self) -> (r: bool)
        requires
            self.wf(),
        ensures
            r == (self.oneshot.spec_is_empty() && self.multishot.spec_is_empty()),
    {
        self.oneshot.is_empty() && self.multishot.is_empty()
    }
}

} // verus!
