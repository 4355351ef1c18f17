//! Ordered selection: the first `limit` eligible entries by a time key, in
//! ascending or descending order. Entries with equal keys may come in any
//! order, as with `ORDER BY .. LIMIT` in SQL.

use vstd::prelude::*;

verus! {

/// Whether key `a` may come before key `b` in the requested order.
pub open spec fn precedes(a: i64, b: i64, ascending: bool) -> bool {
    if ascending {
        a <= b
    } else {
        a >= b
    }
}

/// `sel` lists at most `limit` distinct eligible positions of `keys`, in the
/// requested order of their keys, and every eligible position left out
/// comes no earlier than the last one listed, which only happens once
/// `limit` positions are listed.
pub open spec fn is_ordered_selection(
    keys: Seq<i64>,
    elig: Seq<bool>,
    limit: int,
    ascending: bool,
    sel: Seq<usize>,
) -> bool {
    &&& sel.len() <= limit
    &&& forall|i: int| 0 <= i < sel.len() ==> (#[trigger] sel[i]) < keys.len() && elig[sel[i] as int]
    &&& forall|i: int, j: int| 0 <= i < sel.len() && 0 <= j < sel.len() && i != j ==> sel[i] != sel[j]
    &&& forall|i: int, j: int|
        0 <= i < j < sel.len() ==> precedes(keys[sel[i] as int], keys[sel[j] as int], ascending)
    &&& forall|k: int|
        0 <= k < keys.len() && elig[k] && !sel.contains(k as usize) ==> sel.len() == limit && (sel.len() > 0
            ==> precedes(keys[sel.last() as int], keys[k], ascending))
}

/// The first `limit` eligible positions of `keys` in the requested order.
///
/// Positions with equal keys come in increasing position order.
pub fn select_ordered(keys: &Vec<i64>, elig: &Vec<bool>, limit: usize, ascending: bool) -> (sel: Vec<usize>)
    requires
        keys@.len() == elig@.len(),
    ensures
        is_ordered_selection(keys@, elig@, limit as int, ascending, sel@),
{
    let n = keys.len();
    let mut taken: Vec<bool> = Vec::new();
    let mut t: usize = 0;
    while t < n
        invariant
            t <= n,
            taken@.len() == t,
            forall|k: int| 0 <= k < t ==> !taken@[k],
        decreases n - t,
    {
        taken.push(false);
        t = t + 1;
    }
    let mut sel: Vec<usize> = Vec::new();
    let mut done = false;
    while !done && sel.len() < limit
        invariant
            n == keys@.len(),
            n == elig@.len(),
            taken@.len() == n,
            sel@.len() <= limit,
            forall|k: int| 0 <= k < n ==> (taken@[k] <==> sel@.contains(k as usize)),
            forall|i: int| 0 <= i < sel@.len() ==> (#[trigger] sel@[i]) < n && elig@[sel@[i] as int],
            forall|i: int, j: int| 0 <= i < sel@.len() && 0 <= j < sel@.len() && i != j ==> sel@[i] != sel@[j],
            forall|i: int, j: int|
                0 <= i < j < sel@.len() ==> precedes(keys@[sel@[i] as int], keys@[sel@[j] as int], ascending),
            forall|k: int|
                0 <= k < n && elig@[k] && !taken@[k] && sel@.len() > 0 ==> precedes(
                    keys@[sel@.last() as int],
                    keys@[k],
                    ascending,
                ),
            done ==> forall|k: int| 0 <= k < n ==> !(elig@[k] && !taken@[k]),
        decreases limit - sel@.len(), if done { 0int } else { 1int },
    {
        let mut best: Option<usize> = None;
        let mut j: usize = 0;
        while j < n
            invariant
                j <= n,
                n == keys@.len(),
                n == elig@.len(),
                taken@.len() == n,
                best matches Some(b) ==> b < j && elig@[b as int] && !taken@[b as int] && forall|k: int|
                    0 <= k < j && elig@[k] && !taken@[k] ==> precedes(keys@[b as int], keys@[k], ascending),
                best is None ==> forall|k: int| 0 <= k < j ==> !(elig@[k] && !taken@[k]),
            decreases n - j,
        {
            if elig[j] && !taken[j] {
                match best {
                    None => {
                        best = Some(j);
                    },
                    Some(b) => {
                        let better = if ascending {
                            keys[j] < keys[b]
                        } else {
                            keys[j] > keys[b]
                        };
                        if better {
                            best = Some(j);
                        }
                    },
                }
            }
            j = j + 1;
        }
        match best {
            None => {
                done = true;
            },
            Some(b) => {
                let ghost old_sel = sel@;
                let ghost old_taken = taken@;
                sel.push(b);
                taken.set(b, true);
                proof {
                    assert forall|k: int| 0 <= k < n implies (taken@[k] <==> sel@.contains(k as usize)) by {
                        if k == b {
                            assert(sel@[sel@.len() - 1] == b);
                        } else {
                            if sel@.contains(k as usize) {
                                let i = choose|i: int| 0 <= i < sel@.len() && sel@[i] == k as usize;
                                assert(old_sel[i] == k);
                            }
                            if old_sel.contains(k as usize) {
                                let i = choose|i: int| 0 <= i < old_sel.len() && old_sel[i] == k as usize;
                                assert(sel@[i] == k);
                            }
                        }
                    }
                    assert forall|i: int, j2: int| 0 <= i < sel@.len() && 0 <= j2 < sel@.len() && i != j2 implies sel@[i] != sel@[j2] by {
                        if i == old_sel.len() {
                            assert(old_sel.contains(old_sel[j2]));
                            assert(old_taken[old_sel[j2] as int]);
                        } else if j2 == old_sel.len() {
                            assert(old_sel.contains(old_sel[i]));
                            assert(old_taken[old_sel[i] as int]);
                        }
                    }
                    assert forall|i: int, j2: int|
                        0 <= i < j2 < sel@.len() implies precedes(keys@[sel@[i] as int], keys@[sel@[j2] as int], ascending) by {
                        if j2 == old_sel.len() {
                            assert(old_sel.contains(old_sel[i]));
                            assert(old_taken[old_sel[i] as int]);
                            if i < old_sel.len() - 1 {
                                assert(precedes(keys@[old_sel[i] as int], keys@[old_sel.last() as int], ascending));
                            }
                        }
                    }
                }
            },
        }
    }
    proof {
        assert forall|k: int|
            0 <= k < keys@.len() && elig@[k] && !sel@.contains(k as usize) implies sel@.len() == limit as int && (sel@.len() > 0
                ==> precedes(keys@[sel@.last() as int], keys@[k], ascending)) by {
            assert(!taken@[k]);
        }
    }
    sel
}

} // verus!
