//! Pure, deterministic search core: query parsing, derived keys, matching
//! strategies, tiered scoring, highlight ranges, filters and empty-query
//! strategies. Every output is a function of its inputs alone.

use vstd::prelude::*;

use crate::domain::AppSettings;

pub mod empty_query;
pub mod filter;
pub mod generation;
pub mod highlight;
pub mod keys;
pub mod matching;
pub mod query;
pub mod ranking;
pub mod scoring;
pub mod search_entry;
pub mod weights;

pub use crate::domain::EmptyQueryStrategy;
pub use self::empty_query::{
    empty_query, empty_query_indices, search_with_filter, EmptyQueryResult, NoResultReason, SearchDisplay,
    SearchResponse,
};
pub use self::filter::{Accessibility, FilterSet, Origin};
pub use self::generation::QueryGeneration;
pub use self::highlight::{HighlightOptions, HighlightRange};
pub use self::query::{Query, QueryParser, Token, TokenKind};
pub use self::search_entry::{RankedResult, SearchEntry, SearchField, SearchHit, SearchScore};

use self::highlight::{compute_highlights, highlights_spec};
use self::keys::enabled_only;
use self::matching::{all_tokens_best, best_hit_for_all_tokens, FieldCoin};
use self::ranking::{item_before, lemma_item_before_total, sort_items, strictly_sorted};
use crate::order::{lemma_strictly_ordered_unique, strictly_ordered};
use self::scoring::{build_score, hit_matches, score_total};
use self::search_entry::entry_fields;

verus! {

/// The per-token best hits of `e` for query tokens `q`, or `None` when some
/// token matches no enabled field.
#[verifier::opaque]
pub open spec fn entry_hits(e: SearchEntry, q: Seq<(Seq<char>, TokenKind)>, s: AppSettings) -> Option<Seq<FieldCoin>> {
    all_tokens_best(q, enabled_only(entry_fields(e, s)), s)
}

/// Whether entry `i` is a candidate that matches every token.
pub open spec fn is_match(entries: Seq<SearchEntry>, candidates: Seq<usize>, q: Seq<(Seq<char>, TokenKind)>, s: AppSettings, i: usize) -> bool {
    candidates.contains(i) && i < entries.len() && entry_hits(entries[i as int], q, s) is Some
}

/// The (total score, index) sort item of entry `i`.
pub open spec fn item_of(entries: Seq<SearchEntry>, q: Seq<(Seq<char>, TokenKind)>, s: AppSettings, i: usize) -> (u64, usize) {
    (score_total(entries[i as int], entry_hits(entries[i as int], q, s)->0), i)
}

/// `sel` is the ranked selection: matching candidates only, strictly ordered
/// by score descending then the tie-break then source order, at most
/// `max_results` long, and every matching candidate left out ranks after all
/// selected ones (which then fill `max_results`).
pub open spec fn ranked_selection(entries: Seq<SearchEntry>, candidates: Seq<usize>, q: Seq<(Seq<char>, TokenKind)>, s: AppSettings, sel: Seq<usize>) -> bool {
    &&& sel.len() <= s.max_results
    &&& forall|k: int| 0 <= k < sel.len() ==> is_match(entries, candidates, q, s, #[trigger] sel[k])
    &&& forall|a: int, b: int| 0 <= a < b < sel.len() ==> item_before(entries, item_of(entries, q, s, #[trigger] sel[a]), item_of(entries, q, s, #[trigger] sel[b]))
    &&& forall|i: usize| #[trigger] is_match(entries, candidates, q, s, i) && !sel.contains(i) ==> sel.len() == s.max_results
        && forall|k: int| 0 <= k < sel.len() ==> item_before(entries, item_of(entries, q, s, #[trigger] sel[k]), item_of(entries, q, s, i))
}

/// `r` is the ranked result of entry `e` with per-token hits `hits`.
pub open spec fn result_matches(r: RankedResult, e: SearchEntry, hits: Seq<FieldCoin>, options: HighlightOptions) -> bool {
    &&& r.entry_id == e.id
    &&& r.total_score == score_total(e, hits)
    &&& r.score.total_score == r.total_score
    &&& r.score.token_count == hits.len()
    &&& r.score.matched_token_count == hits.len()
    &&& r.score.hits@.len() == hits.len()
    &&& forall|k: int| 0 <= k < hits.len() ==> hit_matches(#[trigger] r.score.hits@[k], hits[k])
    &&& r.highlights@ == if options.compute_highlights {
        highlights_spec(e, hits)
    } else {
        seq![]
    }
}

/// The ranked results over `candidates` (strictly increasing entry indices):
/// empty for an empty query; otherwise the results of the ranked selection,
/// in order.
pub open spec fn ranked_results(entries: Seq<SearchEntry>, candidates: Seq<usize>, q: Seq<(Seq<char>, TokenKind)>, s: AppSettings, options: HighlightOptions, r: Seq<RankedResult>) -> bool {
    if q.len() == 0 {
        r.len() == 0
    } else {
        exists|sel: Seq<usize>| #[trigger] ranked_selection(entries, candidates, q, s, sel) && r.len() == sel.len()
            && forall|k: int| 0 <= k < sel.len() ==> result_matches(#[trigger] r[k], entries[sel[k] as int], entry_hits(entries[sel[k] as int], q, s)->0, options)
    }
}

/// Every index of `entries`, in order.
pub open spec fn all_indices(n: nat) -> Seq<usize> {
    Seq::new(n, |i: int| i as usize)
}

proof fn lemma_selection_within(entries: Seq<SearchEntry>, candidates: Seq<usize>, q: Seq<(Seq<char>, TokenKind)>, s: AppSettings, sel1: Seq<usize>, sel2: Seq<usize>, x: usize)
    requires
        ranked_selection(entries, candidates, q, s, sel1),
        ranked_selection(entries, candidates, q, s, sel2),
        sel1.contains(x),
    ensures
        sel2.contains(x),
{
    if !sel2.contains(x) {
        let kx = choose|k: int| 0 <= k < sel1.len() && sel1[k] == x;
        assert(is_match(entries, candidates, q, s, sel1[kx]));
        assert(sel2.len() == s.max_results);
        assert forall|y: usize| sel2.to_set().contains(y) implies sel1.to_set().contains(y) by {
            let ky = choose|k: int| 0 <= k < sel2.len() && sel2[k] == y;
            assert(is_match(entries, candidates, q, s, sel2[ky]));
            assert(item_before(entries, item_of(entries, q, s, sel2[ky]), item_of(entries, q, s, x)));
            if !sel1.contains(y) {
                assert(item_before(entries, item_of(entries, q, s, sel1[kx]), item_of(entries, q, s, y)));
                lemma_item_before_total(entries, item_of(entries, q, s, x), item_of(entries, q, s, y), item_of(entries, q, s, x));
            }
        }
        lemma_strict_no_duplicates(entries, q, s, sel2);
        sel2.unique_seq_to_set();
        sel1.lemma_cardinality_of_set();
        vstd::seq_lib::seq_to_set_is_finite(sel1);
        assert(!sel2.to_set().contains(x));
        assert(sel2.to_set().insert(x).len() == sel2.to_set().len() + 1) by {
            vstd::seq_lib::seq_to_set_is_finite(sel2);
        }
        vstd::set_lib::lemma_len_subset(sel2.to_set().insert(x), sel1.to_set());
    }
}

proof fn lemma_strict_no_duplicates(entries: Seq<SearchEntry>, q: Seq<(Seq<char>, TokenKind)>, s: AppSettings, sel: Seq<usize>)
    requires
        forall|a: int, b: int| 0 <= a < b < sel.len() ==> item_before(entries, item_of(entries, q, s, #[trigger] sel[a]), item_of(entries, q, s, #[trigger] sel[b])),
    ensures
        sel.no_duplicates(),
{
    assert forall|a: int, b: int| 0 <= a < sel.len() && 0 <= b < sel.len() && a != b implies sel[a] != sel[b] by {
        let x = item_of(entries, q, s, sel[a]);
        lemma_item_before_total(entries, x, x, x);
        if a < b {
            assert(item_before(entries, item_of(entries, q, s, sel[a]), item_of(entries, q, s, sel[b])));
        } else {
            assert(item_before(entries, item_of(entries, q, s, sel[b]), item_of(entries, q, s, sel[a])));
        }
    }
}

/// Law: a request determines its ranked selection: two selections that both
/// meet [`ranked_selection`] for the same request are equal.
pub proof fn lemma_ranked_selection_unique(entries: Seq<SearchEntry>, candidates: Seq<usize>, q: Seq<(Seq<char>, TokenKind)>, s: AppSettings, sel1: Seq<usize>, sel2: Seq<usize>)
    requires
        ranked_selection(entries, candidates, q, s, sel1),
        ranked_selection(entries, candidates, q, s, sel2),
    ensures
        sel1 == sel2,
{
    let lt = |x: usize, y: usize| item_before(entries, item_of(entries, q, s, x), item_of(entries, q, s, y));
    assert forall|x: usize| !#[trigger] lt(x, x) by {
        lemma_item_before_total(entries, item_of(entries, q, s, x), item_of(entries, q, s, x), item_of(entries, q, s, x));
    }
    assert forall|x: usize, y: usize| #[trigger] lt(x, y) implies !lt(y, x) by {
        lemma_item_before_total(entries, item_of(entries, q, s, x), item_of(entries, q, s, y), item_of(entries, q, s, x));
    }
    assert forall|x: usize| sel1.contains(x) <==> sel2.contains(x) by {
        if sel1.contains(x) {
            lemma_selection_within(entries, candidates, q, s, sel1, sel2, x);
        }
        if sel2.contains(x) {
            lemma_selection_within(entries, candidates, q, s, sel2, sel1, x);
        }
    }
    lemma_strict_no_duplicates(entries, q, s, sel1);
    lemma_strict_no_duplicates(entries, q, s, sel2);
    sel1.unique_seq_to_set();
    sel2.unique_seq_to_set();
    assert(sel1.to_set() =~= sel2.to_set());
    assert(strictly_ordered(lt, sel1));
    assert(strictly_ordered(lt, sel2));
    lemma_strictly_ordered_unique(lt, sel1, sel2);
}

/// Law: results depend on the request alone: two answers to the same
/// request list the same entries with the same scores in the same order,
/// whether or not highlights are computed, and with the same highlights when
/// both compute them alike.
pub proof fn lemma_ranked_results_deterministic(entries: Seq<SearchEntry>, candidates: Seq<usize>, q: Seq<(Seq<char>, TokenKind)>, s: AppSettings, o1: HighlightOptions, o2: HighlightOptions, r1: Seq<RankedResult>, r2: Seq<RankedResult>)
    requires
        ranked_results(entries, candidates, q, s, o1, r1),
        ranked_results(entries, candidates, q, s, o2, r2),
    ensures
        r1.len() == r2.len(),
        forall|k: int| 0 <= k < r1.len() ==> r1[k].entry_id == r2[k].entry_id && r1[k].total_score == r2[k].total_score
            && (o1.compute_highlights == o2.compute_highlights ==> r1[k].highlights@ == r2[k].highlights@),
{
    if q.len() > 0 {
        let sel1 = choose|sel: Seq<usize>| #[trigger] ranked_selection(entries, candidates, q, s, sel) && r1.len() == sel.len()
            && forall|k: int| 0 <= k < sel.len() ==> result_matches(#[trigger] r1[k], entries[sel[k] as int], entry_hits(entries[sel[k] as int], q, s)->0, o1);
        let sel2 = choose|sel: Seq<usize>| #[trigger] ranked_selection(entries, candidates, q, s, sel) && r2.len() == sel.len()
            && forall|k: int| 0 <= k < sel.len() ==> result_matches(#[trigger] r2[k], entries[sel[k] as int], entry_hits(entries[sel[k] as int], q, s)->0, o2);
        lemma_ranked_selection_unique(entries, candidates, q, s, sel1, sel2);
        assert forall|k: int| 0 <= k < r1.len() implies r1[k].entry_id == r2[k].entry_id && r1[k].total_score == r2[k].total_score
            && (o1.compute_highlights == o2.compute_highlights ==> r1[k].highlights@ == r2[k].highlights@) by {
            assert(result_matches(r1[k], entries[sel1[k] as int], entry_hits(entries[sel1[k] as int], q, s)->0, o1));
            assert(result_matches(r2[k], entries[sel2[k] as int], entry_hits(entries[sel2[k] as int], q, s)->0, o2));
        }
    }
}

impl RankedResult {
    /// The ranked result of `entry` with its score and highlights.
    pub fn new(entry: &SearchEntry, score: SearchScore, highlights: Vec<HighlightRange>) -> (r: RankedResult)
        ensures
            r.entry_id == entry.id,
            r.total_score == score.total_score,
            r.score == score,
            r.highlights == highlights,
    {
        RankedResult { entry_id: entry.id, total_score: score.total_score, score, highlights }
    }
}

/// The sort items of the matching entries among `candidates`, in candidate
/// order.
fn collect_items(entries: &[SearchEntry], candidates: &Vec<usize>, query: &Query, settings: &AppSettings) -> (items: Vec<(u64, usize)>)
    requires
        forall|k: int| 0 <= k < candidates@.len() ==> #[trigger] candidates@[k] < entries@.len(),
        forall|a: int, b: int| 0 <= a < b < candidates@.len() ==> #[trigger] candidates@[a] < #[trigger] candidates@[b],
    ensures
        forall|k: int| 0 <= k < items@.len() ==> #[trigger] items@[k] == item_of(entries@, query@, *settings, items@[k].1)
            && is_match(entries@, candidates@, query@, *settings, items@[k].1),
        forall|a: int, b: int| 0 <= a < b < items@.len() ==> #[trigger] items@[a].1 < #[trigger] items@[b].1,
        forall|i: usize| #[trigger] is_match(entries@, candidates@, query@, *settings, i) ==> items@.contains(item_of(entries@, query@, *settings, i)),
{
    let ghost q = query@;
    let ghost s = *settings;
    let mut items: Vec<(u64, usize)> = Vec::new();
    for m in 0..candidates.len()
        invariant
            forall|k: int| 0 <= k < candidates@.len() ==> #[trigger] candidates@[k] < entries@.len(),
            forall|a: int, b: int| 0 <= a < b < candidates@.len() ==> #[trigger] candidates@[a] < #[trigger] candidates@[b],
            q == query@,
            s == *settings,
            forall|k: int| 0 <= k < items@.len() ==> #[trigger] items@[k] == item_of(entries@, q, s, items@[k].1)
                && is_match(entries@, candidates@, q, s, items@[k].1),
            m == 0 ==> items@.len() == 0,
            m > 0 ==> forall|k: int| 0 <= k < items@.len() ==> #[trigger] items@[k].1 <= candidates@[m - 1],
            forall|a: int, b: int| 0 <= a < b < items@.len() ==> #[trigger] items@[a].1 < #[trigger] items@[b].1,
            forall|j: int| 0 <= j < m && is_match(entries@, candidates@, q, s, #[trigger] candidates@[j]) ==> items@.contains(item_of(entries@, q, s, candidates@[j])),
    {
        let c = candidates[m];
        let entry = &entries[c];
        let keys = entry.derive_keys(settings);
        assert(candidates@.contains(c));
        assert(m > 0 ==> candidates@[m - 1] < candidates@[m as int]);
        let ghost before = items@;
        assert(forall|k: int| 0 <= k < before.len() ==> #[trigger] before[k].1 < c);
        let found = best_hit_for_all_tokens(&keys, query, settings);
        assert(entry_hits(entries@[c as int], q, s) == all_tokens_best(q, enabled_only(keys.all_fields()), s)) by {
            reveal(entry_hits);
        }
        match found {
            Some(hits) => {
                let score = build_score(entry, &hits);
                items.push((score.total_score, c));
                proof {
                    assert forall|k: int| 0 <= k < items@.len() implies #[trigger] items@[k].1 <= c by {
                        if k < before.len() {
                            assert(items@[k] == before[k]);
                        }
                    }
                    assert forall|a: int, b: int| 0 <= a < b < items@.len() implies #[trigger] items@[a].1 < #[trigger] items@[b].1 by {
                        assert(items@[a] == before[a]);
                        if b < before.len() {
                            assert(items@[b] == before[b]);
                        }
                    }
                    assert(items@[before.len() as int] == item_of(entries@, q, s, c));
                    assert forall|j: int| 0 <= j < m + 1 && is_match(entries@, candidates@, q, s, #[trigger] candidates@[j]) implies items@.contains(item_of(entries@, q, s, candidates@[j])) by {
                        if j < m {
                            let x = choose|x: int| 0 <= x < before.len() && before[x] == item_of(entries@, q, s, candidates@[j]);
                            assert(items@[x] == before[x]);
                        } else {
                            assert(items@[before.len() as int] == item_of(entries@, q, s, c));
                        }
                    }
                }
            },
            None => {
                proof {
                    assert forall|j: int| 0 <= j < m + 1 && is_match(entries@, candidates@, q, s, #[trigger] candidates@[j]) implies items@.contains(item_of(entries@, q, s, candidates@[j])) by {
                        if j == m {
                            assert(!is_match(entries@, candidates@, q, s, c));
                        }
                    }
                }
            },
        }
    }
    assert forall|i: usize| #[trigger] is_match(entries@, candidates@, q, s, i) implies items@.contains(item_of(entries@, q, s, i)) by {
        let j = choose|j: int| 0 <= j < candidates@.len() && candidates@[j] == i;
    }
    items
}

/// Rank the matching entries among `candidates` (see [`ranked_results`]).
pub fn rank_candidates(entries: &[SearchEntry], candidates: &Vec<usize>, query: &Query, settings: &AppSettings, options: &HighlightOptions) -> (r: Vec<RankedResult>)
    requires
        forall|k: int| 0 <= k < candidates@.len() ==> #[trigger] candidates@[k] < entries@.len(),
        forall|a: int, b: int| 0 <= a < b < candidates@.len() ==> #[trigger] candidates@[a] < #[trigger] candidates@[b],
    ensures
        ranked_results(entries@, candidates@, query@, *settings, *options, r@),
{
    let mut results: Vec<RankedResult> = Vec::new();
    if query.tokens().len() == 0 {
        return results;
    }
    let ghost q = query@;
    let ghost s = *settings;
    let items = collect_items(entries, candidates, query, settings);
    let sorted = sort_items(entries, &items);
    let max = settings.max_results as usize;
    let take = if max < sorted.len() {
        max
    } else {
        sorted.len()
    };
    let ghost sel = sorted@.take(take as int).map_values(|x: (u64, usize)| x.1);
    assert forall|k: int| 0 <= k < sorted@.len() implies #[trigger] sorted@[k] == item_of(entries@, q, s, sorted@[k].1)
        && is_match(entries@, candidates@, q, s, sorted@[k].1) by {
        assert(sorted@.contains(sorted@[k]));
        assert(items@.contains(sorted@[k]));
        let j = choose|j: int| 0 <= j < items@.len() && items@[j] == sorted@[k];
        assert(items@[j] == item_of(entries@, q, s, items@[j].1));
    }
    for t in 0..take
        invariant
            take <= sorted@.len(),
            q == query@,
            s == *settings,
            q.len() > 0,
            sel == sorted@.take(take as int).map_values(|x: (u64, usize)| x.1),
            forall|k: int| 0 <= k < sorted@.len() ==> #[trigger] sorted@[k] == item_of(entries@, q, s, sorted@[k].1)
                && is_match(entries@, candidates@, q, s, sorted@[k].1),
            results@.len() == t,
            forall|k: int| 0 <= k < t ==> result_matches(#[trigger] results@[k], entries@[sel[k] as int], entry_hits(entries@[sel[k] as int], q, s)->0, *options),
    {
        let index = sorted[t].1;
        assert(sel[t as int] == index);
        let entry = &entries[index];
        let keys = entry.derive_keys(settings);
        let found = best_hit_for_all_tokens(&keys, query, settings);
        assert(entry_hits(entries@[index as int], q, s) == all_tokens_best(q, enabled_only(keys.all_fields()), s)) by {
            reveal(entry_hits);
        }
        match found {
            Some(hits) => {
                let score = build_score(entry, &hits);
                let ranges = compute_highlights(entry, &hits, options);
                results.push(RankedResult::new(entry, score, ranges));
            },
            None => {},
        }
    }
    proof {
        assert forall|a: int, b: int| 0 <= a < b < sel.len() implies item_before(entries@, item_of(entries@, q, s, #[trigger] sel[a]), item_of(entries@, q, s, #[trigger] sel[b])) by {
            assert(sorted@[a] == item_of(entries@, q, s, sorted@[a].1));
            assert(sorted@[b] == item_of(entries@, q, s, sorted@[b].1));
        }
        assert forall|k: int| 0 <= k < sel.len() implies is_match(entries@, candidates@, q, s, #[trigger] sel[k]) by {
            assert(sorted@[k] == item_of(entries@, q, s, sorted@[k].1));
        }
        assert forall|i: usize| #[trigger] is_match(entries@, candidates@, q, s, i) && !sel.contains(i) implies sel.len() == s.max_results
            && forall|k: int| 0 <= k < sel.len() ==> item_before(entries@, item_of(entries@, q, s, #[trigger] sel[k]), item_of(entries@, q, s, i)) by {
            assert(items@.contains(item_of(entries@, q, s, i)));
            assert(sorted@.contains(item_of(entries@, q, s, i)));
            let p = choose|p: int| 0 <= p < sorted@.len() && sorted@[p] == item_of(entries@, q, s, i);
            if p < take {
                assert(sel[p] == i);
            }
            assert forall|k: int| 0 <= k < sel.len() implies item_before(entries@, item_of(entries@, q, s, #[trigger] sel[k]), item_of(entries@, q, s, i)) by {
                assert(sorted@[k] == item_of(entries@, q, s, sorted@[k].1));
            }
        }
        assert(ranked_selection(entries@, candidates@, q, s, sel));
    }
    results
}

/// Run a deterministic search over `entries`.
///
/// Every token must match at least one enabled field (multi-token AND);
/// different tokens may match different fields. A result's tier is the
/// weakest tier among its tokens' best hits, while every token contributes its
/// points. Results are ordered by total score, then the documented tie-break,
/// and truncated to `settings.max_results` after full scoring. An empty query
/// yields no results.
pub fn search(entries: &[SearchEntry], query: &Query, settings: &AppSettings, options: &HighlightOptions) -> (r: Vec<RankedResult>)
    ensures
        ranked_results(entries@, all_indices(entries@.len()), query@, *settings, *options, r@),
{
    let mut candidates: Vec<usize> = Vec::new();
    for i in 0..entries.len()
        invariant
            candidates@ == all_indices(i as nat),
    {
        candidates.push(i);
        assert(candidates@ =~= all_indices((i + 1) as nat));
    }
    rank_candidates(entries, &candidates, query, settings, options)
}

} // verus!
