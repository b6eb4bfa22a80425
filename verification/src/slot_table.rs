//! A dense-key slot allocator.
//!
//! Keys are small indices into a backing vector; a removed key is pushed
//! onto a free list and handed out again by the very next insertion, so
//! key reuse is immediate and every operation runs in constant time.
//! The pending table and both result stores are built on this type.

use vstd::prelude::*;

verus! {

use vstd::pervasive::unreached;
use vstd::pervasive::VecAdditionalExecFns;

/// A table of slots addressed by dense integer keys.
///
/// The view is the backing sequence: `self@[k]` is `Some(v)` when key `k`
/// is occupied by `v` and `None` when `k` is free. Indices beyond the view
/// are keys that have never been handed out.
pub struct SlotTable<V> {
    entries: Vec<Option<V>>,
    free: Vec<usize>,
}

impl<V> View for SlotTable<V> {
    type V = Seq<Option<V>>;

    closed spec fn view(&self) -> Seq<Option<V>> {
        self.entries@
    }
}

impl<V> SlotTable<V> {
    /// The free list holds distinct, in-bounds keys of vacant slots.
    pub closed spec fn wf(&self) -> bool {
        &&& forall|j: int|
            0 <= j < self.free@.len() ==> (#[trigger] self.free@[j]) < self.entries@.len()
                && self.entries@[self.free@[j] as int] is None
        &&& forall|j1: int, j2: int|
            0 <= j1 < j2 < self.free@.len() ==> self.free@[j1] != self.free@[j2]
    }

    /// The key the next insertion will return.
    pub closed spec fn next_key(&self) -> int {
        if self.free@.len() > 0 {
            self.free@[self.free@.len() - 1] as int
        } else {
            self.entries@.len() as int
        }
    }

    /// Every slot is vacant.
    pub open spec fn all_vacant(&self) -> bool {
        forall|i: int| 0 <= i < self@.len() ==> self@[i] is None
    }

    pub fn new() -> (t: Self)
        ensures
            t.wf(),
            t@ == Seq::<Option<V>>::empty(),
            t.next_key() == 0,
    {
        SlotTable { entries: Vec::new(), free: Vec::new() }
    }

    /// Store `v` under a fresh key and return the key. A key freed by the
    /// most recent removal is reused first; otherwise the table grows.
    pub fn insert(&mut self, v: V) -> (k: usize)
        requires
            old(self).wf(),
        ensures
            final(self).wf(),
            k as int == old(self).next_key(),
            k <= old(self)@.len(),
            k < old(self)@.len() ==> old(self)@[k as int] is None && final(self)@ == old(
                self,
            )@.update(k as int, Some(v)),
            k == old(self)@.len() ==> final(self)@ == old(self)@.push(Some(v)),
    {
        match self.free.pop() {
            Some(k) => {
                proof {
                    assert(self.free@ == old(self).free@.subrange(
                        0,
                        old(self).free@.len() - 1,
                    ));
                    assert forall|j: int| 0 <= j < self.free@.len() implies (
                    #[trigger] self.free@[j]) != k by {
                        assert(old(self).free@[j] != old(self).free@[old(self).free@.len() - 1]);
                    }
                }
                self.entries.set(k, Some(v));
                k
            },
            None => {
                let k = self.entries.len();
                self.entries.push(Some(v));
                k
            },
        }
    }

    /// Read the slot under `k`, if `k` is an occupied key.
    pub fn get(&self, k: usize) -> (r: Option<&V>)
        requires
            self.wf(),
        ensures
            match r {
                Some(v) => k < self@.len() && self@[k as int] == Some(*v),
                None => !(k < self@.len() && self@[k as int] is Some),
            },
    {
        if k < self.entries.len() {
            match &self.entries[k] {
                Some(v) => Some(v),
                None => None,
            }
        } else {
            None
        }
    }

    /// Vacate the slot under `k` and return its value. The key is handed
    /// out again by the next insertion.
    pub fn remove(&mut self, k: usize) -> (v: V)
        requires
            old(self).wf(),
            k < old(self)@.len(),
            old(self)@[k as int] is Some,
        ensures
            final(self).wf(),
            final(self)@ == old(self)@.update(k as int, None),
            Some(v) == old(self)@[k as int],
            final(self).next_key() == k as int,
    {
        let mut taken: Option<V> = None;
        self.entries.set_and_swap(k, &mut taken);
        self.free.push(k);
        proof {
            assert forall|j1: int, j2: int|
                0 <= j1 < j2 < self.free@.len() implies self.free@[j1] != self.free@[j2] by {
                if j2 == self.free@.len() - 1 {
                    assert(old(self).entries@[old(self).free@[j1] as int] is None);
                }
            }
        }
        match taken {
            Some(v) => v,
            None => unreached(),
        }
    }

    /// Whether no slot is occupied.
    pub fn is_empty(&self) -> (r: bool)
        requires
            self.wf(),
        ensures
            r == self.all_vacant(),
    {
        let mut i: usize = 0;
        while i < self.entries.len()
            invariant
                0 <= i <= self.entries@.len(),
                forall|j: int| 0 <= j < i ==> self@[j] is None,
            decreases self.entries@.len() - i,
        {
            if self.entries[i].is_some() {
                return false;
            }
            i += 1;
        }
        true
    }
}

} // verus!
