//! Deterministic result ordering.
//!
//! Results are ordered by total score descending, then by the documented
//! tie-break (manual weight descending, pinned first, open count descending,
//! folder id ascending), then by source position. No time or randomness is
//! involved, so repeated identical requests give identical orderings.

use vstd::prelude::*;

use std::cmp::Ordering;

use crate::order::{lemma_strictly_ordered_unique, strictly_ordered};

use super::search_entry::SearchEntry;

verus! {

/// The documented tie-break: whether `a` sorts strictly before `b` by manual
/// weight descending, then pinned first, then open count descending, then
/// folder id ascending.
pub open spec fn entry_before(a: SearchEntry, b: SearchEntry) -> bool {
    ||| a.manual_weight > b.manual_weight
    ||| a.manual_weight == b.manual_weight && a.pinned && !b.pinned
    ||| a.manual_weight == b.manual_weight && a.pinned == b.pinned && a.open_count > b.open_count
    ||| a.manual_weight == b.manual_weight && a.pinned == b.pinned && a.open_count == b.open_count
        && a.id.value() < b.id.value()
}

/// Whether the scored item `a` (score, entry index) sorts strictly before
/// `b`: higher score first, then [`entry_before`], then lower index.
pub open spec fn item_before(entries: Seq<SearchEntry>, a: (u64, usize), b: (u64, usize)) -> bool {
    ||| a.0 > b.0
    ||| a.0 == b.0 && entry_before(entries[a.1 as int], entries[b.1 as int])
    ||| a.0 == b.0 && !entry_before(entries[b.1 as int], entries[a.1 as int])
        && !entry_before(entries[a.1 as int], entries[b.1 as int]) && a.1 < b.1
}

/// Law: the tie-break is a strict order: irreflexive, asymmetric and
/// transitive.
pub proof fn lemma_entry_before_strict(a: SearchEntry, b: SearchEntry, c: SearchEntry)
    ensures
        !entry_before(a, a),
        entry_before(a, b) ==> !entry_before(b, a),
        entry_before(a, b) && entry_before(b, c) ==> entry_before(a, c),
{
}

/// Law: the item order is a strict total order on items with distinct
/// indices.
pub proof fn lemma_item_before_total(entries: Seq<SearchEntry>, a: (u64, usize), b: (u64, usize), c: (u64, usize))
    ensures
        !item_before(entries, a, a),
        item_before(entries, a, b) ==> !item_before(entries, b, a),
        a.1 != b.1 ==> item_before(entries, a, b) || item_before(entries, b, a),
        item_before(entries, a, b) && item_before(entries, b, c) ==> item_before(entries, a, c),
{
    lemma_entry_before_strict(entries[a.1 as int], entries[b.1 as int], entries[c.1 as int]);
    lemma_entry_before_strict(entries[b.1 as int], entries[c.1 as int], entries[a.1 as int]);
    lemma_entry_before_strict(entries[c.1 as int], entries[a.1 as int], entries[b.1 as int]);
    lemma_entry_before_strict(entries[a.1 as int], entries[c.1 as int], entries[b.1 as int]);
    lemma_entry_before_strict(entries[b.1 as int], entries[a.1 as int], entries[c.1 as int]);
    lemma_entry_before_strict(entries[c.1 as int], entries[b.1 as int], entries[a.1 as int]);
}

/// Whether `left` sorts strictly before `right` by the tie-break.
pub fn entry_precedes(left: &SearchEntry, right: &SearchEntry) -> (r: bool)
    ensures
        r == entry_before(*left, *right),
{
    if left.manual_weight != right.manual_weight {
        return left.manual_weight > right.manual_weight;
    }
    if left.pinned != right.pinned {
        return left.pinned;
    }
    if left.open_count != right.open_count {
        return left.open_count > right.open_count;
    }
    left.id.as_u128() < right.id.as_u128()
}

/// Stable, documented tie-break for two entries whose score is equal: `Less`
/// when `left` goes first, `Greater` when `right` goes first, `Equal` when
/// the ordering keys coincide.
pub fn tiebreak(left: &SearchEntry, right: &SearchEntry) -> (r: Ordering)
    ensures
        (r == Ordering::Less) == entry_before(*left, *right),
        (r == Ordering::Greater) == entry_before(*right, *left),
{
    proof {
        lemma_entry_before_strict(*left, *right, *left);
    }
    if entry_precedes(left, right) {
        Ordering::Less
    } else if entry_precedes(right, left) {
        Ordering::Greater
    } else {
        Ordering::Equal
    }
}

fn item_precedes(entries: &[SearchEntry], a: (u64, usize), b: (u64, usize)) -> (r: bool)
    requires
        a.1 < entries@.len(),
        b.1 < entries@.len(),
    ensures
        r == item_before(entries@, a, b),
{
    if a.0 != b.0 {
        return a.0 > b.0;
    }
    let ab = entry_precedes(&entries[a.1], &entries[b.1]);
    let ba = entry_precedes(&entries[b.1], &entries[a.1]);
    ab || (!ba && !ab && a.1 < b.1)
}

/// Whether `s` is strictly ordered by [`item_before`].
pub open spec fn strictly_sorted(entries: Seq<SearchEntry>, s: Seq<(u64, usize)>) -> bool {
    forall|i: int, j: int| 0 <= i < j < s.len() ==> item_before(entries, #[trigger] s[i], #[trigger] s[j])
}

/// Sorts scored items by [`item_before`] (a stable sort of score descending
/// with the tie-break, items being listed by ascending index).
pub fn sort_items(entries: &[SearchEntry], items: &Vec<(u64, usize)>) -> (r: Vec<(u64, usize)>)
    requires
        forall|k: int| 0 <= k < items@.len() ==> #[trigger] items@[k].1 < entries@.len(),
        forall|i: int, j: int| 0 <= i < j < items@.len() ==> #[trigger] items@[i].1 != #[trigger] items@[j].1,
    ensures
        r@.len() == items@.len(),
        forall|x: (u64, usize)| r@.contains(x) <==> items@.contains(x),
        strictly_sorted(entries@, r@),
{
    let mut r: Vec<(u64, usize)> = Vec::new();
    for i in 0..items.len()
        invariant
            forall|k: int| 0 <= k < items@.len() ==> #[trigger] items@[k].1 < entries@.len(),
            forall|a: int, b: int| 0 <= a < b < items@.len() ==> #[trigger] items@[a].1 != #[trigger] items@[b].1,
            r@.len() == i,
            forall|x: (u64, usize)| r@.contains(x) <==> items@.take(i as int).contains(x),
            strictly_sorted(entries@, r@),
    {
        let x = items[i];
        assert(items@.take(i + 1) == items@.take(i as int).push(x));
        assert forall|k: int| 0 <= k < r@.len() implies #[trigger] r@[k].1 < entries@.len() && r@[k].1 != x.1 by {
            assert(r@.contains(r@[k]));
            assert(items@.take(i as int).contains(r@[k]));
            let m = choose|m: int| 0 <= m < i && items@.take(i as int)[m] == r@[k];
            assert(items@[m] == r@[k]);
        }
        let mut p: usize = 0;
        while p < r.len() && !item_precedes(entries, x, r[p])
            invariant
                0 <= p <= r@.len(),
                x == items@[i as int],
                x.1 < entries@.len(),
                forall|k: int| 0 <= k < r@.len() ==> #[trigger] r@[k].1 < entries@.len(),
                forall|k: int| 0 <= k < p ==> !item_before(entries@, x, #[trigger] r@[k]),
            decreases r@.len() - p,
        {
            p = p + 1;
        }
        let ghost before = r@;
        proof {
            assert forall|k: int| 0 <= k < p implies item_before(entries@, #[trigger] before[k], x) by {
                lemma_item_before_total(entries@, before[k], x, x);
            }
            assert forall|k: int| p <= k < before.len() implies item_before(entries@, x, #[trigger] before[k]) by {
                if k > p {
                    assert(item_before(entries@, before[p as int], before[k]));
                    lemma_item_before_total(entries@, x, before[p as int], before[k]);
                }
            }
            before.insert_ensures(p as int, x);
        }
        r.insert(p, x);
        proof {
            let after = r@;
            assert(after == before.insert(p as int, x));
            assert forall|a: int, b: int| 0 <= a < b < after.len() implies item_before(entries@, #[trigger] after[a], #[trigger] after[b]) by {
                if b < p {
                    assert(after[a] == before[a] && after[b] == before[b]);
                } else if b == p {
                    assert(after[a] == before[a]);
                } else if a < p {
                    assert(after[a] == before[a] && after[b] == before[b - 1]);
                    lemma_item_before_total(entries@, before[a], x, before[b - 1]);
                } else if a == p {
                    assert(after[b] == before[b - 1]);
                } else {
                    assert(after[a] == before[a - 1] && after[b] == before[b - 1]);
                }
            }
            assert forall|y: (u64, usize)| after.contains(y) <==> items@.take(i + 1).contains(y) by {
                if after.contains(y) {
                    let k = choose|k: int| 0 <= k < after.len() && after[k] == y;
                    if k < p {
                        assert(before[k] == y);
                        assert(before.contains(y));
                    } else if k > p {
                        assert(before[k - 1] == y);
                        assert(before.contains(y));
                    }
                    if k != p {
                        assert(items@.take(i as int).contains(y));
                        let m = choose|m: int| 0 <= m < i && items@.take(i as int)[m] == y;
                        assert(items@.take(i + 1)[m] == y);
                    } else {
                        assert(items@.take(i + 1)[i as int] == y);
                    }
                }
                if items@.take(i + 1).contains(y) {
                    if y != x {
                        let m = choose|m: int| 0 <= m < i + 1 && #[trigger] items@.take(i + 1)[m] == y;
                        assert(m != i);
                        assert(items@.take(i as int)[m] == y);
                        assert(items@.take(i as int).contains(y));
                        assert(before.contains(y));
                        let k = choose|k: int| 0 <= k < before.len() && before[k] == y;
                        if k < p {
                            assert(after[k] == y);
                        } else {
                            assert(after[k + 1] == y);
                        }
                    } else {
                        assert(after[p as int] == y);
                    }
                }
            }
        }
    }
    assert(items@.take(items@.len() as int) == items@);
    r
}

/// Whether entry index `i` sorts strictly before `j`: the tie-break, then
/// lower index.
pub open spec fn index_before(entries: Seq<SearchEntry>, i: usize, j: usize) -> bool {
    item_before(entries, (0u64, i), (0u64, j))
}

/// `sorted` lists exactly the indices of `candidates`, strictly ordered by
/// [`index_before`].
pub open spec fn sorted_permutation(entries: Seq<SearchEntry>, candidates: Seq<usize>, sorted: Seq<usize>) -> bool {
    &&& sorted.len() == candidates.len()
    &&& forall|x: usize| sorted.contains(x) <==> candidates.contains(x)
    &&& forall|a: int, b: int| 0 <= a < b < sorted.len() ==> index_before(entries, #[trigger] sorted[a], #[trigger] sorted[b])
}

/// Law: the full ordering is deterministic: two arrangements of the same
/// candidates that are both sorted by [`index_before`] are equal.
pub proof fn lemma_sorted_permutation_unique(entries: Seq<SearchEntry>, candidates: Seq<usize>, s1: Seq<usize>, s2: Seq<usize>)
    requires
        sorted_permutation(entries, candidates, s1),
        sorted_permutation(entries, candidates, s2),
    ensures
        s1 == s2,
{
    let lt = |i: usize, j: usize| index_before(entries, i, j);
    assert forall|x: usize| !#[trigger] lt(x, x) by {
        lemma_item_before_total(entries, (0u64, x), (0u64, x), (0u64, x));
    }
    assert forall|x: usize, y: usize| #[trigger] lt(x, y) implies !lt(y, x) by {
        lemma_item_before_total(entries, (0u64, x), (0u64, y), (0u64, x));
    }
    assert(strictly_ordered(lt, s1));
    assert(strictly_ordered(lt, s2));
    lemma_strictly_ordered_unique(lt, s1, s2);
}

/// Sorts distinct entry indices by [`index_before`] (a stable sort by the
/// tie-break of ascending indices).
pub fn sort_indices(entries: &[SearchEntry], candidates: &Vec<usize>) -> (r: Vec<usize>)
    requires
        forall|k: int| 0 <= k < candidates@.len() ==> #[trigger] candidates@[k] < entries@.len(),
        forall|a: int, b: int| 0 <= a < b < candidates@.len() ==> #[trigger] candidates@[a] != #[trigger] candidates@[b],
    ensures
        sorted_permutation(entries@, candidates@, r@),
{
    let mut items: Vec<(u64, usize)> = Vec::new();
    for k in 0..candidates.len()
        invariant
            items@.len() == k,
            forall|j: int| 0 <= j < k ==> #[trigger] items@[j] == (0u64, candidates@[j]),
    {
        items.push((0, candidates[k]));
    }
    let sorted = sort_items(entries, &items);
    let mut r: Vec<usize> = Vec::new();
    for k in 0..sorted.len()
        invariant
            r@.len() == k,
            forall|j: int| 0 <= j < k ==> #[trigger] r@[j] == sorted@[j].1,
    {
        r.push(sorted[k].1);
    }
    proof {
        assert forall|j: int| 0 <= j < sorted@.len() implies #[trigger] sorted@[j] == (0u64, r@[j]) by {
            assert(sorted@.contains(sorted@[j]));
            let m = choose|m: int| 0 <= m < items@.len() && items@[m] == sorted@[j];
        }
        assert forall|x: usize| r@.contains(x) <==> candidates@.contains(x) by {
            if r@.contains(x) {
                let j = choose|j: int| 0 <= j < r@.len() && r@[j] == x;
                assert(sorted@.contains(sorted@[j]));
                let m = choose|m: int| 0 <= m < items@.len() && items@[m] == sorted@[j];
                assert(candidates@[m] == x);
            }
            if candidates@.contains(x) {
                let m = choose|m: int| 0 <= m < candidates@.len() && candidates@[m] == x;
                assert(items@.contains(items@[m]));
                let j = choose|j: int| 0 <= j < sorted@.len() && sorted@[j] == items@[m];
                assert(r@[j] == x);
            }
        }
        assert forall|a: int, b: int| 0 <= a < b < r@.len() implies index_before(entries@, #[trigger] r@[a], #[trigger] r@[b]) by {
            assert(item_before(entries@, sorted@[a], sorted@[b]));
        }
    }
    r
}

} // verus!
