//! Stable ordering by rank.
//!
//! A rank is a total preorder: any two values compare, and comparison is
//! transitive, but two different values may rank the same. What is sorted
//! here is never the ranks themselves but positions: the result says, for
//! each place in the output, which place of the input goes there.

use vstd::prelude::*;

verus! {

/// A value by which things are put in order.
pub trait Ranked: Sized {
    /// `self` may come before `other`.
    spec fn rank_le(&self, other: &Self) -> bool;

    fn precedes(&self, other: &Self) -> (r: bool)
        ensures
            r == self.rank_le(other),
    ;

    proof fn lemma_total(a: &Self, b: &Self)
        ensures
            a.rank_le(b) || b.rank_le(a),
    ;

    proof fn lemma_transitive(a: &Self, b: &Self, c: &Self)
        requires
            a.rank_le(b),
            b.rank_le(c),
        ensures
            a.rank_le(c),
    ;
}

/// Position `k` is among `picks`.
pub open spec fn picked(picks: Seq<usize>, k: int) -> bool {
    exists|i: int| 0 <= i < picks.len() && picks[i] == k
}

/// `picks` puts the positions of `ranks` in stable ascending order.
///
/// Every position is picked; ranks never go down from one pick to the next;
/// and of two positions that rank the same, the earlier is picked first.
pub open spec fn stable_order_of<K: Ranked>(picks: Seq<usize>, ranks: Seq<K>) -> bool {
    &&& picks.len() == ranks.len()
    &&& forall|i: int| 0 <= i < picks.len() ==> (#[trigger] picks[i]) < ranks.len()
    &&& forall|k: int| 0 <= k < ranks.len() ==> #[trigger] picked(picks, k)
    &&& forall|i: int, j: int|
        0 <= i < j < picks.len() ==> {
            let a = ranks[(#[trigger] picks[i]) as int];
            let b = ranks[(#[trigger] picks[j]) as int];
            a.rank_le(&b) && (b.rank_le(&a) ==> picks[i] < picks[j])
        }
}

/// `items` rearranged as `picks` says.
pub open spec fn arranged<T>(items: Seq<T>, picks: Seq<usize>) -> Seq<T> {
    Seq::new(picks.len(), |i: int| items[picks[i] as int])
}

/// In a stable order no position is picked twice.
pub proof fn lemma_picks_are_distinct<K: Ranked>(picks: Seq<usize>, ranks: Seq<K>)
    requires
        stable_order_of(picks, ranks),
    ensures
        forall|i: int, j: int| 0 <= i < j < picks.len() ==> picks[i] != picks[j],
{
    assert forall|i: int, j: int| 0 <= i < j < picks.len() implies picks[i] != picks[j] by {
        let a = ranks[picks[i] as int];
        let b = ranks[picks[j] as int];
        if picks[i] == picks[j] {
            assert(b.rank_le(&a) ==> picks[i] < picks[j]);
        }
    }
}

/// Two stable orders of ranks that compare alike agree up to place `upto`.
proof fn lemma_stable_orders_agree<K: Ranked>(
    first: Seq<usize>,
    second: Seq<usize>,
    ranks: Seq<K>,
    others: Seq<K>,
    upto: int,
)
    requires
        stable_order_of(first, ranks),
        stable_order_of(second, others),
        ranks.len() == others.len(),
        forall|a: int, b: int|
            0 <= a < ranks.len() && 0 <= b < ranks.len() ==> ranks[a].rank_le(&ranks[b])
                == others[a].rank_le(&others[b]),
        0 <= upto <= first.len(),
    ensures
        forall|i: int| 0 <= i < upto ==> first[i] == second[i],
    decreases upto,
{
    if upto > 0 {
        let at = upto - 1;
        lemma_stable_orders_agree(first, second, ranks, others, at);
        lemma_picks_are_distinct(first, ranks);
        lemma_picks_are_distinct(second, others);
        let x = first[at];
        let y = second[at];
        if x != y {
            // Each of the two is picked later by the other order.
            assert(picked(second, x as int));
            let j = choose|j: int| 0 <= j < second.len() && second[j] == x as int;
            assert(j > at) by {
                if j < at {
                    assert(first[j] == second[j]);
                }
            }
            assert(picked(first, y as int));
            let k = choose|k: int| 0 <= k < first.len() && first[k] == y as int;
            assert(k > at) by {
                if k < at {
                    assert(first[k] == second[k]);
                }
            }
            // So each would have to stand before the other.
            let in_first = ranks[first[at] as int].rank_le(&ranks[first[k] as int]);
            let in_second = others[second[at] as int].rank_le(&others[second[j] as int]);
            assert(in_first && in_second);
            assert(ranks[x as int].rank_le(&ranks[y as int]) == others[x as int].rank_le(
                &others[y as int],
            ));
            assert(ranks[y as int].rank_le(&ranks[x as int]) == others[y as int].rank_le(
                &others[x as int],
            ));
            assert(first[at] < first[k]);
            assert(second[at] < second[j]);
            assert(false);
        }
    }
}

/// There is one stable order only: ranks that compare alike are put in
/// order alike.
pub proof fn lemma_stable_order_is_unique<K: Ranked>(
    first: Seq<usize>,
    second: Seq<usize>,
    ranks: Seq<K>,
    others: Seq<K>,
)
    requires
        stable_order_of(first, ranks),
        stable_order_of(second, others),
        ranks.len() == others.len(),
        forall|a: int, b: int|
            0 <= a < ranks.len() && 0 <= b < ranks.len() ==> ranks[a].rank_le(&ranks[b])
                == others[a].rank_le(&others[b]),
    ensures
        first == second,
{
    lemma_stable_orders_agree(first, second, ranks, others, first.len() as int);
    assert(first =~= second);
}

/// Puts the positions of `ranks` in stable ascending order.
pub fn stable_order<K: Ranked>(ranks: &Vec<K>) -> (picks: Vec<usize>)
    ensures
        stable_order_of(picks@, ranks@),
{
    let mut picks: Vec<usize> = Vec::new();
    let mut n: usize = 0;
    while n < ranks.len()
        invariant
            n <= ranks@.len(),
            stable_order_of(picks@, ranks@.subrange(0, n as int)),
        decreases ranks@.len() - n,
    {
        let ghost before = picks@;
        let ghost known = ranks@.subrange(0, n as int);
        let mut place: usize = picks.len();
        while place > 0 && !ranks[picks[place - 1]].precedes(&ranks[n])
            invariant
                n < ranks@.len(),
                place <= picks@.len(),
                picks@ == before,
                known == ranks@.subrange(0, n as int),
                stable_order_of(picks@, known),
                forall|q: int|
                    place <= q < picks@.len() ==> !ranks@[(#[trigger] picks@[q]) as int].rank_le(
                        &ranks@[n as int],
                    ),
            decreases place,
        {
            place -= 1;
        }
        picks.insert(place, n);
        proof {
            let after = picks@;
            let grown = ranks@.subrange(0, n + 1);
            let fresh = ranks@[n as int];
            assert(after.len() == grown.len());
            assert forall|i: int| 0 <= i < after.len() implies (#[trigger] after[i]) < grown.len() by {
                if i < place {
                    assert(after[i] == before[i]);
                } else if i > place {
                    assert(after[i] == before[i - 1]);
                }
            }
            assert forall|k: int| 0 <= k < grown.len() implies #[trigger] picked(after, k) by {
                if k == n {
                    assert(after[place as int] == k);
                } else {
                    assert(picked(before, k));
                    let i = choose|i: int| 0 <= i < before.len() && before[i] == k;
                    if i < place {
                        assert(after[i] == k);
                    } else {
                        assert(after[i + 1] == k);
                    }
                }
            }
            // Everything left of the place ranks no higher than the newcomer.
            assert forall|i: int| 0 <= i < place implies ranks@[(#[trigger] before[i]) as int].rank_le(
                &fresh,
            ) by {
                let last = ranks@[before[place - 1] as int];
                assert(last.rank_le(&fresh));
                if i < place - 1 {
                    let a = known[before[i] as int];
                    let b = known[before[place - 1] as int];
                    assert(a.rank_le(&b));
                    K::lemma_transitive(&ranks@[before[i] as int], &last, &fresh);
                }
            }
            assert forall|i: int, j: int| 0 <= i < j < after.len() implies {
                let a = grown[(#[trigger] after[i]) as int];
                let b = grown[(#[trigger] after[j]) as int];
                a.rank_le(&b) && (b.rank_le(&a) ==> after[i] < after[j])
            } by {
                let a = grown[after[i] as int];
                let b = grown[after[j] as int];
                if j == place {
                    assert(after[i] == before[i]);
                    assert(before[i] < known.len());
                } else if i == place {
                    assert(after[j] == before[j - 1]);
                    assert(!ranks@[before[j - 1] as int].rank_le(&fresh));
                    K::lemma_total(&ranks@[before[j - 1] as int], &fresh);
                } else {
                    let old_i = if i < place { i } else { i - 1 };
                    let old_j = if j < place { j } else { j - 1 };
                    assert(after[i] == before[old_i]);
                    assert(after[j] == before[old_j]);
                    let x = known[before[old_i] as int];
                    let y = known[before[old_j] as int];
                    assert(x.rank_le(&y) && (y.rank_le(&x) ==> before[old_i] < before[old_j]));
                }
            }
        }
        n += 1;
    }
    proof {
        assert(ranks@.subrange(0, ranks@.len() as int) =~= ranks@);
    }
    picks
}

/// Turns a list round.
pub fn reversed<T>(items: Vec<T>) -> (r: Vec<T>)
    ensures
        r@ == items@.reverse(),
{
    let ghost given = items@;
    let mut rest = items;
    let mut turned: Vec<T> = Vec::new();
    while rest.len() > 0
        invariant
            rest@.len() + turned@.len() == given.len(),
            rest@ == given.subrange(0, rest@.len() as int),
            forall|k: int|
                0 <= k < turned@.len() ==> #[trigger] turned@[k] == given[given.len() - 1 - k],
        decreases rest@.len(),
    {
        let item = rest.pop().unwrap();
        turned.push(item);
    }
    proof {
        assert(turned@ =~= given.reverse());
    }
    turned
}

/// Rearranges `items` as `picks` says: the item at place `i` of the result
/// is the one that stood at `picks[i]`.
pub fn arrange<T>(items: Vec<T>, picks: &Vec<usize>) -> (r: Vec<T>)
    requires
        picks@.len() == items@.len(),
        forall|i: int| 0 <= i < picks@.len() ==> (#[trigger] picks@[i]) < items@.len(),
        forall|i: int, j: int| 0 <= i < j < picks@.len() ==> picks@[i] != picks@[j],
    ensures
        r@ == arranged(items@, picks@),
{
    let ghost given = items@;
    let mut slots: Vec<Option<T>> = Vec::new();
    let mut rest = items;
    while rest.len() > 0
        invariant
            rest@.len() + slots@.len() == given.len(),
            rest@ == given.subrange(0, rest@.len() as int),
            forall|k: int|
                0 <= k < slots@.len() ==> #[trigger] slots@[k] == Some(
                    given[given.len() - 1 - k],
                ),
        decreases rest@.len(),
    {
        let item = rest.pop().unwrap();
        slots.push(Some(item));
    }
    // `slots` holds the items back to front.
    let total = slots.len();
    let mut out: Vec<T> = Vec::new();
    let mut i: usize = 0;
    while i < picks.len()
        invariant
            i <= picks@.len(),
            total == given.len(),
            slots@.len() == total,
            picks@.len() == total,
            forall|i: int| 0 <= i < picks@.len() ==> (#[trigger] picks@[i]) < total,
            forall|i: int, j: int| 0 <= i < j < picks@.len() ==> picks@[i] != picks@[j],
            out@ == arranged(given, picks@.subrange(0, i as int)),
            forall|k: int|
                0 <= k < total ==> #[trigger] slots@[total - 1 - k] == (if exists|j: int|
                    0 <= j < i && picks@[j] == k {
                    None
                } else {
                    Some(given[k])
                }),
        decreases picks@.len() - i,
    {
        let from = picks[i];
        let ghost slots_before = slots@;
        proof {
            assert(slots@[total - 1 - from] == Some(given[from as int])) by {
                if exists|j: int| 0 <= j < i && picks@[j] == from {
                    let j = choose|j: int| 0 <= j < i && picks@[j] == from;
                    assert(picks@[j] != picks@[i as int]);
                }
            }
        }
        let mut taken: Option<T> = None;
        core::mem::swap(&mut slots[total - 1 - from], &mut taken);
        let item = taken.unwrap();
        out.push(item);
        proof {
            assert(out@ =~= arranged(given, picks@.subrange(0, i + 1)));
            assert forall|k: int| 0 <= k < total implies #[trigger] slots@[total - 1 - k] == (if exists|
                j: int,
            |
                0 <= j < i + 1 && picks@[j] == k {
                None
            } else {
                Some(given[k])
            }) by {
                if k == from {
                    assert(picks@[i as int] == k);
                } else {
                    assert(slots@[total - 1 - k] == slots_before[total - 1 - k]);
                    if exists|j: int| 0 <= j < i && picks@[j] == k {
                        let j = choose|j: int| 0 <= j < i && picks@[j] == k;
                        assert(0 <= j < i + 1 && picks@[j] == k);
                    } else {
                        if exists|j: int| 0 <= j < i + 1 && picks@[j] == k {
                            let j = choose|j: int| 0 <= j < i + 1 && picks@[j] == k;
                            assert(j < i);
                        }
                    }
                }
            }
        }
        i += 1;
    }
    proof {
        assert(picks@.subrange(0, picks@.len() as int) =~= picks@);
    }
    out
}

} // verus!
