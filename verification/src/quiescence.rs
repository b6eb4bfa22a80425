//! Quiescence: once every submission has completed and every handle has
//! been torn down, both result stores are empty.
//!
//! The argument is an accounting invariant over a whole reactor trace.
//! At every moment, each occupied result slot is spoken for: a oneshot
//! slot still awaiting its completion is referenced by a pending entry
//! and owned by a live handle, a delivered value is owned by the handle
//! that will read it, a slot marked dropped is referenced by the pending
//! entry whose completion will dispose of it, and a multishot slot is
//! owned by its live handle. Every reactor operation — submitting,
//! routing completions, polling, tearing a handle down — preserves the
//! accounting, and a quiesced trace (no pending entry, no live handle)
//! therefore leaves nothing in either store.

use crate::multishot;
use crate::oneshot;
use crate::reactor::IoKind;
use crate::reactor::ReactorModel;
use crate::stores::ResultState;
use vstd::prelude::*;

verus! {

/// Some live oneshot handle owns this slot.
pub open spec fn oneshot_owned(os: Seq<oneshot::IoState>, slot: int) -> bool {
    exists|h: int|
        0 <= h < os.len() && ((#[trigger] os[h]) matches oneshot::IoState::Submitted(s) && s
            == slot)
}

/// Some live multishot handle owns this slot.
pub open spec fn multishot_owned(ms: Seq<multishot::IoState>, slot: int) -> bool {
    exists|h: int|
        0 <= h < ms.len() && ((#[trigger] ms[h]) matches multishot::IoState::Submitted(s, _)
            && s == slot)
}

/// Some pending oneshot entry routes its completion to this slot.
pub open spec fn oneshot_referenced<T, E>(m: ReactorModel<T, E>, slot: int) -> bool {
    exists|t: int|
        0 <= t < m.pending.len() && (#[trigger] m.pending[t]) is Some
            && m.pending[t].unwrap().kind is Oneshot && m.pending[t].unwrap().result_slab_idx
            == slot
}

/// The accounting invariant: every occupied slot of either store is
/// reachable again — by the completion that will resolve or dispose of
/// it, or by the live handle that will read and release it.
pub open spec fn accounted<T, E>(
    m: ReactorModel<T, E>,
    os: Seq<oneshot::IoState>,
    ms: Seq<multishot::IoState>,
) -> bool {
    &&& forall|i: int|
        0 <= i < m.oneshot.len() ==> match #[trigger] m.oneshot[i] {
            Some(ResultState::Pending) => oneshot_referenced(m, i) && oneshot_owned(os, i),
            Some(ResultState::Delivered(_)) => oneshot_owned(os, i),
            Some(ResultState::Dropped) => oneshot_referenced(m, i),
            None => true,
        }
    &&& forall|i: int|
        0 <= i < m.multishot.len() && (#[trigger] m.multishot[i]) is Some ==> multishot_owned(ms, i)
}

/// A quiesced reactor — no pending entry and no live handle — has empty
/// stores.
pub proof fn lemma_quiesced_stores_empty<T, E>(
    m: ReactorModel<T, E>,
    os: Seq<oneshot::IoState>,
    ms: Seq<multishot::IoState>,
)
    requires
        accounted(m, os, ms),
        forall|t: int| 0 <= t < m.pending.len() ==> (#[trigger] m.pending[t]) is None,
        os.len() == 0,
        ms.len() == 0,
    ensures
        m.stores_empty(),
{
    assert forall|i: int| 0 <= i < m.oneshot.len() implies m.oneshot[i] is None by {
        if m.oneshot[i] is Some {
            match m.oneshot[i] {
                Some(ResultState::Pending) | Some(ResultState::Dropped) => {
                    let t = choose|t: int|
                        0 <= t < m.pending.len() && (#[trigger] m.pending[t]) is Some
                            && m.pending[t].unwrap().kind is Oneshot
                            && m.pending[t].unwrap().result_slab_idx == i;
                    assert(m.pending[t] is None);
                },
                _ => {
                },
            }
        }
    }
}

/// Submitting a oneshot I/O keeps the accounting: the fresh slot is
/// referenced by the fresh pending entry and owned by the handle that
/// just moved to `Submitted`.
pub proof fn lemma_submit_oneshot_preserves_accounted<T, E>(
    m: ReactorModel<T, E>,
    post: ReactorModel<T, E>,
    entry: E,
    obj: T,
    tag: usize,
    slot: usize,
    os: Seq<oneshot::IoState>,
    ms: Seq<multishot::IoState>,
)
    requires
        accounted(m, os, ms),
        m.submit_post(post, entry, obj, IoKind::Oneshot, tag as int, slot as int),
    ensures
        accounted(post, os.push(oneshot::IoState::Submitted(slot)), ms),
{
    let os1 = os.push(oneshot::IoState::Submitted(slot));
    assert(post.pending[tag as int] is Some && post.pending[tag as int].unwrap().kind is Oneshot
        && post.pending[tag as int].unwrap().result_slab_idx == slot);
    assert(os1[os.len() as int] == oneshot::IoState::Submitted(slot));
    assert forall|i: int| 0 <= i < post.oneshot.len() implies match #[trigger] post.oneshot[i] {
        Some(ResultState::Pending) => oneshot_referenced(post, i) && oneshot_owned(os1, i),
        Some(ResultState::Delivered(_)) => oneshot_owned(os1, i),
        Some(ResultState::Dropped) => oneshot_referenced(post, i),
        None => true,
    } by {
        if i == slot {
            assert(oneshot_referenced(post, i));
            assert(oneshot_owned(os1, i));
        } else if post.oneshot[i] is Some {
            assert(post.oneshot[i] == m.oneshot[i]);
            match m.oneshot[i] {
                Some(ResultState::Pending) | Some(ResultState::Dropped) => {
                    let t = choose|t: int|
                        0 <= t < m.pending.len() && (#[trigger] m.pending[t]) is Some
                            && m.pending[t].unwrap().kind is Oneshot
                            && m.pending[t].unwrap().result_slab_idx == i;
                    assert(t != tag);
                    assert(post.pending[t] == m.pending[t]);
                    assert(oneshot_referenced(post, i));
                },
                _ => {
                },
            }
            match m.oneshot[i] {
                Some(ResultState::Pending) | Some(ResultState::Delivered(_)) => {
                    let h = choose|h: int|
                        0 <= h < os.len() && ((#[trigger] os[h])
                            matches oneshot::IoState::Submitted(s) && s == i);
                    assert(os1[h] == os[h]);
                    assert(oneshot_owned(os1, i));
                },
                _ => {
                },
            }
        }
    }
    assert forall|i: int|
        0 <= i < post.multishot.len() && (#[trigger] post.multishot[i]) is Some implies
    multishot_owned(ms, i) by {
        assert(post.multishot[i] == m.multishot[i]);
    }
}

/// Submitting a multishot I/O keeps the accounting: the fresh slot is
/// owned by the handle that just moved to `Submitted`.
pub proof fn lemma_submit_multishot_preserves_accounted<T, E>(
    m: ReactorModel<T, E>,
    post: ReactorModel<T, E>,
    entry: E,
    obj: T,
    tag: usize,
    slot: usize,
    os: Seq<oneshot::IoState>,
    ms: Seq<multishot::IoState>,
)
    requires
        accounted(m, os, ms),
        m.submit_post(post, entry, obj, IoKind::Multi, tag as int, slot as int),
    ensures
        accounted(post, os, ms.push(multishot::IoState::Submitted(slot, tag))),
{
    let ms1 = ms.push(multishot::IoState::Submitted(slot, tag));
    assert(ms1[ms.len() as int] == multishot::IoState::Submitted(slot, tag));
    assert forall|i: int|
        0 <= i < post.multishot.len() && (#[trigger] post.multishot[i]) is Some implies
    multishot_owned(ms1, i) by {
        if i == slot {
            assert(multishot_owned(ms1, i));
        } else {
            assert(post.multishot[i] == m.multishot[i]);
            let h = choose|h: int|
                0 <= h < ms.len() && ((#[trigger] ms[h]) matches multishot::IoState::Submitted(
                    s,
                    _,
                ) && s == i);
            assert(ms1[h] == ms[h]);
            assert(multishot_owned(ms1, i));
        }
    }
    assert forall|i: int| 0 <= i < post.oneshot.len() implies match #[trigger] post.oneshot[i] {
        Some(ResultState::Pending) => oneshot_referenced(post, i) && oneshot_owned(os, i),
        Some(ResultState::Delivered(_)) => oneshot_owned(os, i),
        Some(ResultState::Dropped) => oneshot_referenced(post, i),
        None => true,
    } by {
        assert(post.oneshot[i] == m.oneshot[i]);
        if post.oneshot[i] is Some {
            match m.oneshot[i] {
                Some(ResultState::Pending) | Some(ResultState::Dropped) => {
                    let t = choose|t: int|
                        0 <= t < m.pending.len() && (#[trigger] m.pending[t]) is Some
                            && m.pending[t].unwrap().kind is Oneshot
                            && m.pending[t].unwrap().result_slab_idx == i;
                    assert(t != tag);
                    assert(post.pending[t] == m.pending[t]);
                    assert(oneshot_referenced(post, i));
                },
                _ => {
                },
            }
        }
    }
}

/// Routing one completion keeps the accounting: a resolved oneshot slot
/// passes from its pending entry to its owning handle, a disposed slot
/// leaves the store, and a multishot slot stays with its handle.
pub proof fn lemma_complete_preserves_accounted<T, E>(
    m: ReactorModel<T, E>,
    user_data: int,
    result: i32,
    more: bool,
    os: Seq<oneshot::IoState>,
    ms: Seq<multishot::IoState>,
)
    requires
        m.inv(),
        m.complete_ok(user_data),
        accounted(m, os, ms),
    ensures
        accounted(m.complete_model(user_data, result, more), os, ms),
{
    let post = m.complete_model(user_data, result, more);
    let p = m.pending[user_data].unwrap();
    assert forall|i: int| 0 <= i < post.oneshot.len() implies match #[trigger] post.oneshot[i] {
        Some(ResultState::Pending) => oneshot_referenced(post, i) && oneshot_owned(os, i),
        Some(ResultState::Delivered(_)) => oneshot_owned(os, i),
        Some(ResultState::Dropped) => oneshot_referenced(post, i),
        None => true,
    } by {
        if post.oneshot[i] is Some {
            if p.kind is Oneshot && i == p.result_slab_idx {
                // This is the completed slot: it was Pending (a Dropped
                // slot would have been removed), so it was owned, and it
                // is Delivered now.
                assert(m.oneshot[i] == Some(ResultState::Pending));
                assert(oneshot_owned(os, i));
            } else {
                assert(post.oneshot[i] == m.oneshot[i]);
                match m.oneshot[i] {
                    Some(ResultState::Pending) | Some(ResultState::Dropped) => {
                        let t = choose|t: int|
                            0 <= t < m.pending.len() && (#[trigger] m.pending[t]) is Some
                                && m.pending[t].unwrap().kind is Oneshot
                                && m.pending[t].unwrap().result_slab_idx == i;
                        assert(t != user_data);
                        assert(post.pending[t] == m.pending[t]);
                        assert(oneshot_referenced(post, i));
                    },
                    _ => {
                    },
                }
            }
        }
    }
    assert forall|i: int|
        0 <= i < post.multishot.len() && (#[trigger] post.multishot[i]) is Some implies
    multishot_owned(ms, i) by {
        if !(p.kind is Multi && i == p.result_slab_idx) {
            assert(post.multishot[i] == m.multishot[i]);
        } else {
            assert(m.multishot[i] is Some);
        }
    }
}

/// Tearing down a oneshot handle keeps the accounting: its delivered
/// value leaves the store with it, and a slot it leaves behind as
/// `Dropped` stays referenced by the completion that will dispose of
/// it. The handle leaves the live set; `os1` is `os` with position `k`
/// removed.
pub proof fn lemma_oneshot_drop_preserves_accounted<T, E>(
    m: ReactorModel<T, E>,
    h: oneshot::IoState,
    k: int,
    os: Seq<oneshot::IoState>,
    os1: Seq<oneshot::IoState>,
    ms: Seq<multishot::IoState>,
)
    requires
        accounted(m, os, ms),
        oneshot::state_inv(h, m),
        0 <= k < os.len(),
        os[k] == h,
        os1.len() == os.len() - 1,
        forall|j: int| 0 <= j < k ==> os1[j] == os[j],
        forall|j: int| k <= j < os1.len() ==> os1[j] == os[j + 1],
    ensures
        accounted(oneshot::drop_step(h, m), os1, ms),
{
    let post = oneshot::drop_step(h, m);
    assert forall|i: int| 0 <= i < post.oneshot.len() implies match #[trigger] post.oneshot[i] {
        Some(ResultState::Pending) => oneshot_referenced(post, i) && oneshot_owned(os1, i),
        Some(ResultState::Delivered(_)) => oneshot_owned(os1, i),
        Some(ResultState::Dropped) => oneshot_referenced(post, i),
        None => true,
    } by {
        if post.oneshot[i] is Some {
            let own_slot = h matches oneshot::IoState::Submitted(s) && i == s;
            if own_slot {
                // Pending became Dropped: still referenced, and the
                // reference is untouched (teardown edits no pending
                // entry).
                assert(m.oneshot[i] == Some(ResultState::Pending));
                let t = choose|t: int|
                    0 <= t < m.pending.len() && (#[trigger] m.pending[t]) is Some
                        && m.pending[t].unwrap().kind is Oneshot
                        && m.pending[t].unwrap().result_slab_idx == i;
                assert(post.pending[t] == m.pending[t]);
                assert(oneshot_referenced(post, i));
            } else {
                assert(post.oneshot[i] == m.oneshot[i]);
                match m.oneshot[i] {
                    Some(ResultState::Pending) | Some(ResultState::Dropped) => {
                        let t = choose|t: int|
                            0 <= t < m.pending.len() && (#[trigger] m.pending[t]) is Some
                                && m.pending[t].unwrap().kind is Oneshot
                                && m.pending[t].unwrap().result_slab_idx == i;
                        assert(post.pending[t] == m.pending[t]);
                        assert(oneshot_referenced(post, i));
                    },
                    _ => {
                    },
                }
                match m.oneshot[i] {
                    Some(ResultState::Pending) | Some(ResultState::Delivered(_)) => {
                        let hw = choose|hw: int|
                            0 <= hw < os.len() && ((#[trigger] os[hw])
                                matches oneshot::IoState::Submitted(s) && s == i);
                        // The dropped handle does not own this slot, so
                        // the owner survives the removal, shifted.
                        assert(hw != k);
                        let hw1: int = if hw < k {
                            hw
                        } else {
                            hw - 1
                        };
                        assert(os1[hw1] == os[hw]);
                        assert(oneshot_owned(os1, i));
                    },
                    _ => {
                    },
                }
            }
        }
    }
    assert forall|i: int|
        0 <= i < post.multishot.len() && (#[trigger] post.multishot[i]) is Some implies
    multishot_owned(ms, i) by {
        assert(post.multishot[i] == m.multishot[i]);
    }
}

/// Tearing down a multishot handle keeps the accounting: its slot — and,
/// for a running stream, its pending entry — leave the reactor with it.
/// The handle leaves the live set; `ms1` is `ms` with position `k`
/// removed.
pub proof fn lemma_multishot_drop_preserves_accounted<T, E>(
    m: ReactorModel<T, E>,
    h: multishot::IoState,
    k: int,
    os: Seq<oneshot::IoState>,
    ms: Seq<multishot::IoState>,
    ms1: Seq<multishot::IoState>,
)
    requires
        accounted(m, os, ms),
        multishot::state_inv(h, m),
        0 <= k < ms.len(),
        ms[k] == h,
        ms1.len() == ms.len() - 1,
        forall|j: int| 0 <= j < k ==> ms1[j] == ms[j],
        forall|j: int| k <= j < ms1.len() ==> ms1[j] == ms[j + 1],
    ensures
        accounted(multishot::drop_step(h, m), os, ms1),
{
    let post = multishot::drop_step(h, m);
    assert forall|i: int|
        0 <= i < post.multishot.len() && (#[trigger] post.multishot[i]) is Some implies
    multishot_owned(ms1, i) by {
        let own_slot = h matches multishot::IoState::Submitted(s, _) && i == s;
        if !own_slot {
            assert(post.multishot[i] == m.multishot[i]);
            let hw = choose|hw: int|
                0 <= hw < ms.len() && ((#[trigger] ms[hw]) matches multishot::IoState::Submitted(
                    s,
                    _,
                ) && s == i);
            assert(hw != k);
            let hw1: int = if hw < k {
                hw
            } else {
                hw - 1
            };
            assert(ms1[hw1] == ms[hw]);
            assert(multishot_owned(ms1, i));
        }
    }
    assert forall|i: int| 0 <= i < post.oneshot.len() implies match #[trigger] post.oneshot[i] {
        Some(ResultState::Pending) => oneshot_referenced(post, i) && oneshot_owned(os, i),
        Some(ResultState::Delivered(_)) => oneshot_owned(os, i),
        Some(ResultState::Dropped) => oneshot_referenced(post, i),
        None => true,
    } by {
        assert(post.oneshot[i] == m.oneshot[i]);
        if post.oneshot[i] is Some {
            match m.oneshot[i] {
                Some(ResultState::Pending) | Some(ResultState::Dropped) => {
                    let t = choose|t: int|
                        0 <= t < m.pending.len() && (#[trigger] m.pending[t]) is Some
                            && m.pending[t].unwrap().kind is Oneshot
                            && m.pending[t].unwrap().result_slab_idx == i;
                    // A running stream's teardown retires a multishot
                    // entry, never a oneshot one.
                    assert(post.pending[t] == m.pending[t]);
                    assert(oneshot_referenced(post, i));
                },
                _ => {
                },
            }
        }
    }
}

/// Polling a oneshot handle keeps the accounting: taking the delivered
/// value removes the slot, and the handle — now `Finished` — replaces
/// itself in the live set.
pub proof fn lemma_oneshot_poll_preserves_accounted<T, E>(
    m: ReactorModel<T, E>,
    h: oneshot::IoState,
    k: int,
    os: Seq<oneshot::IoState>,
    ms: Seq<multishot::IoState>,
)
    requires
        accounted(m, os, ms),
        oneshot::state_inv(h, m),
        0 <= k < os.len(),
        os[k] == h,
    ensures
        accounted(oneshot::poll_step(h, m).1, os.update(k, oneshot::poll_step(h, m).0), ms),
{
    let post = oneshot::poll_step(h, m).1;
    let os1 = os.update(k, oneshot::poll_step(h, m).0);
    assert forall|i: int| 0 <= i < post.oneshot.len() implies match #[trigger] post.oneshot[i] {
        Some(ResultState::Pending) => oneshot_referenced(post, i) && oneshot_owned(os1, i),
        Some(ResultState::Delivered(_)) => oneshot_owned(os1, i),
        Some(ResultState::Dropped) => oneshot_referenced(post, i),
        None => true,
    } by {
        if post.oneshot[i] is Some {
            // The slot the poll took its delivered value from is gone in
            // the post state, so this one was left untouched.
            assert(post.oneshot[i] == m.oneshot[i]);
            match m.oneshot[i] {
                Some(ResultState::Pending) | Some(ResultState::Dropped) => {
                    let t = choose|t: int|
                        0 <= t < m.pending.len() && (#[trigger] m.pending[t]) is Some
                            && m.pending[t].unwrap().kind is Oneshot
                            && m.pending[t].unwrap().result_slab_idx == i;
                    assert(post.pending[t] == m.pending[t]);
                    assert(oneshot_referenced(post, i));
                },
                _ => {
                },
            }
            match m.oneshot[i] {
                Some(ResultState::Pending) | Some(ResultState::Delivered(_)) => {
                    let hw = choose|hw: int|
                        0 <= hw < os.len() && ((#[trigger] os[hw])
                            matches oneshot::IoState::Submitted(s) && s == i);
                    // If the polled handle itself owns this slot, the
                    // poll found it pending and left the handle
                    // submitted; every other owner is untouched.
                    if hw == k {
                        assert(m.oneshot[i] == Some(ResultState::Pending));
                        assert(os1[hw] == os[hw]);
                    } else {
                        assert(os1[hw] == os[hw]);
                    }
                    assert(oneshot_owned(os1, i));
                },
                _ => {
                },
            }
        }
    }
    assert forall|i: int|
        0 <= i < post.multishot.len() && (#[trigger] post.multishot[i]) is Some implies
    multishot_owned(ms, i) by {
        assert(post.multishot[i] == m.multishot[i]);
    }
}

/// Polling a multishot handle keeps the accounting: the slot stays with
/// its still-submitted handle whatever the poll yields.
pub proof fn lemma_multishot_poll_preserves_accounted<T, E>(
    m: ReactorModel<T, E>,
    h: multishot::IoState,
    os: Seq<oneshot::IoState>,
    ms: Seq<multishot::IoState>,
)
    requires
        accounted(m, os, ms),
        multishot::state_inv(h, m),
    ensures
        accounted(multishot::poll_step(h, m).1, os, ms),
{
    let post = multishot::poll_step(h, m).1;
    assert forall|i: int|
        0 <= i < post.multishot.len() && (#[trigger] post.multishot[i]) is Some implies
    multishot_owned(ms, i) by {
        assert(m.multishot[i] is Some);
    }
    assert forall|i: int| 0 <= i < post.oneshot.len() implies match #[trigger] post.oneshot[i] {
        Some(ResultState::Pending) => oneshot_referenced(post, i) && oneshot_owned(os, i),
        Some(ResultState::Delivered(_)) => oneshot_owned(os, i),
        Some(ResultState::Dropped) => oneshot_referenced(post, i),
        None => true,
    } by {
        assert(post.oneshot[i] == m.oneshot[i]);
        if post.oneshot[i] is Some {
            match m.oneshot[i] {
                Some(ResultState::Pending) | Some(ResultState::Dropped) => {
                    let t = choose|t: int|
                        0 <= t < m.pending.len() && (#[trigger] m.pending[t]) is Some
                            && m.pending[t].unwrap().kind is Oneshot
                            && m.pending[t].unwrap().result_slab_idx == i;
                    assert(post.pending[t] == m.pending[t]);
                    assert(oneshot_referenced(post, i));
                },
                _ => {
                },
            }
        }
    }
}

} // verus!
