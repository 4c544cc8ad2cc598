//! The order in which records are listed: by creation time, most recent
//! first.

use vstd::prelude::*;

verus! {

/// Where a record made at time `t` goes into a listing: before the first
/// entry that is not newer than it.
pub open spec fn slot(order: Seq<int>, times: Seq<i64>, t: i64) -> int
    decreases order.len(),
{
    if order.len() == 0 {
        0
    } else if times[order[0]] <= t {
        0
    } else {
        1 + slot(order.drop_first(), times, t)
    }
}

/// The positions of the first `n` records, most recent first. Of two
/// records made at the same time, the one added later comes first.
pub open spec fn newest_first(times: Seq<i64>, n: nat) -> Seq<int>
    decreases n,
{
    if n == 0 {
        Seq::empty()
    } else {
        let rest = newest_first(times, (n - 1) as nat);
        rest.insert(slot(rest, times, times[n - 1]), n - 1)
    }
}

/// Whether a listing names positions whose times never grow.
pub open spec fn descending(order: Seq<int>, times: Seq<i64>) -> bool {
    forall|i: int, j: int| 0 <= i < j < order.len() ==> times[order[i]] >= times[order[j]]
}

/// Whether a listing names each of the first `n` positions exactly once.
pub open spec fn names_each_once(order: Seq<int>, n: nat) -> bool {
    &&& order.len() == n
    &&& forall|i: int| 0 <= i < order.len() ==> 0 <= #[trigger] order[i] < n
    &&& forall|i: int, j: int| 0 <= i < j < order.len() ==> order[i] != order[j]
    &&& forall|k: int| 0 <= k < n ==> order.contains(k)
}

/// The slot lies within the listing; what stands before it is newer than
/// `t`, and in a descending listing nothing from it on is.
pub proof fn lemma_slot(order: Seq<int>, times: Seq<i64>, t: i64)
    ensures
        0 <= slot(order, times, t) <= order.len(),
        forall|i: int| 0 <= i < slot(order, times, t) ==> times[#[trigger] order[i]] > t,
        descending(order, times) ==> forall|i: int|
            slot(order, times, t) <= i < order.len() ==> times[#[trigger] order[i]] <= t,
    decreases order.len(),
{
    if order.len() > 0 && times[order[0]] > t {
        let rest = order.drop_first();
        lemma_slot(rest, times, t);
        assert forall|i: int| 0 <= i < slot(order, times, t) implies times[#[trigger] order[i]]
            > t by {
            if i > 0 {
                assert(order[i] == rest[i - 1]);
            }
        }
        if descending(order, times) {
            assert(descending(rest, times)) by {
                assert forall|i: int, j: int| 0 <= i < j < rest.len() implies times[rest[i]]
                    >= times[rest[j]] by {
                    assert(rest[i] == order[i + 1]);
                    assert(rest[j] == order[j + 1]);
                }
            }
            assert forall|i: int| slot(order, times, t) <= i < order.len() implies times[
                #[trigger] order[i]] <= t by {
                assert(order[i] == rest[i - 1]);
            }
        }
    } else if order.len() > 0 {
        if descending(order, times) {
            assert forall|i: int| 0 <= i < order.len() implies times[#[trigger] order[i]]
                <= t by {
                if i > 0 {
                    assert(times[order[0]] >= times[order[i]]);
                }
            }
        }
    }
}

/// A listing is ordered by creation time, most recent first, and names
/// every record exactly once.
pub proof fn lemma_newest_first(times: Seq<i64>, n: nat)
    requires
        n <= times.len(),
    ensures
        descending(newest_first(times, n), times),
        names_each_once(newest_first(times, n), n),
    decreases n,
{
    if n > 0 {
        let rest = newest_first(times, (n - 1) as nat);
        lemma_newest_first(times, (n - 1) as nat);
        let t = times[n - 1];
        let p = slot(rest, times, t);
        lemma_slot(rest, times, t);
        let all = rest.insert(p, n - 1);
        assert(all == newest_first(times, n));
        assert forall|i: int, j: int| 0 <= i < j < all.len() implies times[all[i]] >= times[all[j]] by {
            if i < p {
                assert(all[i] == rest[i]);
            } else if i > p {
                assert(all[i] == rest[i - 1]);
            }
            if j < p {
                assert(all[j] == rest[j]);
            } else if j > p {
                assert(all[j] == rest[j - 1]);
            }
        }
        assert forall|i: int| 0 <= i < all.len() implies 0 <= #[trigger] all[i] < n by {
            if i < p {
                assert(all[i] == rest[i]);
            } else if i > p {
                assert(all[i] == rest[i - 1]);
            }
        }
        assert forall|i: int, j: int| 0 <= i < j < all.len() implies all[i] != all[j] by {
            if i < p {
                assert(all[i] == rest[i]);
            } else if i > p {
                assert(all[i] == rest[i - 1]);
            }
            if j < p {
                assert(all[j] == rest[j]);
            } else if j > p {
                assert(all[j] == rest[j - 1]);
            }
        }
        assert forall|k: int| 0 <= k < n implies all.contains(k) by {
            if k == n - 1 {
                assert(all[p] == k);
            } else {
                assert(rest.contains(k));
                let q = choose|q: int| 0 <= q < rest.len() && rest[q] == k;
                if q < p {
                    assert(all[q] == k);
                } else {
                    assert(all[q + 1] == k);
                }
            }
        }
    }
}

/// The positions of a list of creation times as they are listed.
pub open spec fn positions(order: Seq<usize>) -> Seq<int> {
    Seq::new(order.len(), |i: int| order[i] as int)
}

/// Orders the positions of `times` by time, most recent first.
pub fn newest_first_order(times: &Vec<i64>) -> (order: Vec<usize>)
    ensures
        positions(order@) == newest_first(times@, times@.len()),
{
    let mut order: Vec<usize> = Vec::new();
    let mut n: usize = 0;
    assert(positions(order@) =~= newest_first(times@, 0));
    while n < times.len()
        invariant
            n <= times.len(),
            positions(order@) == newest_first(times@, n as nat),
        decreases times.len() - n,
    {
        let t: i64 = times[n];
        let ghost rest = positions(order@);
        proof {
            lemma_newest_first(times@, n as nat);
            lemma_slot(rest, times@, t);
        }
        let mut p: usize = 0;
        assert(rest.skip(0) =~= rest);
        while p < order.len() && times[order[p]] > t
            invariant
                p <= order.len(),
                rest == positions(order@),
                rest.len() == n,
                n < times.len(),
                t == times@[n as int],
                forall|i: int| 0 <= i < rest.len() ==> 0 <= #[trigger] rest[i] < n,
                slot(rest, times@, t) == p + slot(rest.skip(p as int), times@, t),
            decreases order.len() - p,
        {
            assert(rest[p as int] == order@[p as int] as int);
            assert(rest.skip(p as int).drop_first() =~= rest.skip(p as int + 1));
            assert(rest.skip(p as int)[0] == rest[p as int]);
            p += 1;
        }
        proof {
            if p < order.len() {
                assert(rest[p as int] == order@[p as int] as int);
                assert(rest.skip(p as int)[0] == rest[p as int]);
            }
            assert(slot(rest, times@, t) == p);
        }
        order.insert(p, n);
        assert(positions(order@) =~= rest.insert(p as int, n as int));
        n += 1;
    }
    order
}

} // verus!
