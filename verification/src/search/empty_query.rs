//! Empty-query display strategies and the filter-aware search entry point.
//!
//! `FavoritesFirst` makes an at-most-five-item favorites quick-access section,
//! then lists the remaining pinned entries, the remaining previously opened
//! entries, and then all remaining entries. The cap applies only to the
//! favorites section. Every strategy performs its full deterministic order
//! (the documented tie-break) before `max_results` truncates the list.

use vstd::prelude::*;

use crate::domain::{AppSettings, EmptyQueryStrategy, MAX_FAVORITES};

use super::filter::{kept_indices, lemma_kept_indices_ordered, FilterSet};
use super::highlight::HighlightOptions;
use super::query::{Query, TokenKind};
use super::ranking::{sort_indices, sorted_permutation};
use super::search_entry::{RankedResult, SearchEntry};
use super::{all_indices, rank_candidates, ranked_results};

verus! {

/// Why a request resulted in no visible results.
#[derive(Debug, Clone, Copy, PartialEq, Eq, Structural)]
pub enum NoResultReason {
    /// There are no stored entries.
    NoData,
    /// Entries exist, but filtering (or a filtering strategy such as
    /// `PinnedOnly`) removed every candidate.
    FilteredOut,
    /// Candidates existed but a non-empty query matched none of them.
    NoMatch,
}

/// Empty-query result as source indices, with a reason only when nothing can
/// be displayed (and the `Blank` strategy was not chosen).
#[derive(Debug, Clone, PartialEq, Eq)]
pub struct EmptyQueryResult {
    /// Indices into the original `entries`, fully ordered and truncated by
    /// `settings.max_results`.
    pub indices: Vec<usize>,
    pub no_result_reason: Option<NoResultReason>,
}

/// A filter-aware response: ranked results for a typed query, source indices
/// for an empty query.
#[derive(Debug, Clone)]
pub enum SearchDisplay {
    Ranked(Vec<RankedResult>),
    EmptyQuery(Vec<usize>),
}

/// Filter-aware search response with a localizable empty-state reason.
#[derive(Debug, Clone)]
pub struct SearchResponse {
    pub display: SearchDisplay,
    pub no_result_reason: Option<NoResultReason>,
}

/// Section predicates of the favorites-first list: 0 favorites; 1 pinned
/// non-favorites; 2 opened, unpinned non-favorites; 3 the rest; 4 pinned.
pub open spec fn section_pred(kind: u8, e: SearchEntry) -> bool {
    if kind == 0 {
        e.favorite
    } else if kind == 1 {
        !e.favorite && e.pinned
    } else if kind == 2 {
        !e.favorite && !e.pinned && e.last_opened_at is Some
    } else if kind == 3 {
        !e.favorite && !e.pinned && e.last_opened_at is None
    } else {
        e.pinned
    }
}

/// The indices of `order` whose entries satisfy section `kind`, in order.
pub open spec fn select(entries: Seq<SearchEntry>, order: Seq<usize>, kind: u8) -> Seq<usize>
    decreases order.len(),
{
    if order.len() == 0 {
        seq![]
    } else if section_pred(kind, entries[order.last() as int]) {
        select(entries, order.drop_last(), kind).push(order.last())
    } else {
        select(entries, order.drop_last(), kind)
    }
}

/// At most `MAX_FAVORITES` leading items of `s`.
pub open spec fn cap_favorites(s: Seq<usize>) -> Seq<usize> {
    if s.len() > MAX_FAVORITES {
        s.take(MAX_FAVORITES as int)
    } else {
        s
    }
}

/// Favorites first: up to five favorites, then pinned non-favorites, then
/// opened non-favorites, then every other non-favorite, each in `order`.
pub open spec fn favorites_first_spec(entries: Seq<SearchEntry>, order: Seq<usize>) -> Seq<usize> {
    cap_favorites(select(entries, order, 0)) + select(entries, order, 1) + select(entries, order, 2)
        + select(entries, order, 3)
}

/// The list a strategy shows for the ordered candidates `sorted`.
pub open spec fn strategy_spec(entries: Seq<SearchEntry>, sorted: Seq<usize>, strategy: EmptyQueryStrategy) -> Seq<usize> {
    match strategy {
        EmptyQueryStrategy::Blank => seq![],
        EmptyQueryStrategy::PinnedOnly => select(entries, sorted, 4),
        EmptyQueryStrategy::All => sorted,
        EmptyQueryStrategy::FavoritesFirst => favorites_first_spec(entries, sorted),
    }
}

/// `r` is what `strategy` shows for `candidates` after the full ordering.
pub open spec fn strategy_result(entries: Seq<SearchEntry>, candidates: Seq<usize>, strategy: EmptyQueryStrategy, r: Seq<usize>) -> bool {
    exists|sorted: Seq<usize>| #[trigger] sorted_permutation(entries, candidates, sorted) && r == strategy_spec(entries, sorted, strategy)
}

/// Law: favorites-first never loses a non-favorite entry: every non-favorite
/// of `order` is listed.
pub proof fn lemma_favorites_first_keeps_non_favorites(entries: Seq<SearchEntry>, order: Seq<usize>, i: int)
    requires
        0 <= i < order.len(),
        0 <= order[i] < entries.len(),
        !entries[order[i] as int].favorite,
    ensures
        favorites_first_spec(entries, order).contains(order[i]),
{
    let e = entries[order[i] as int];
    let kind: u8 = if e.pinned {
        1
    } else if e.last_opened_at is Some {
        2
    } else {
        3
    };
    lemma_select_contains(entries, order, kind, i);
    let sel = select(entries, order, kind);
    let k = choose|k: int| 0 <= k < sel.len() && sel[k] == order[i];
    let a = cap_favorites(select(entries, order, 0));
    let b = select(entries, order, 1);
    let c = select(entries, order, 2);
    let all = favorites_first_spec(entries, order);
    if kind == 1 {
        assert(all[a.len() + k] == order[i]);
    } else if kind == 2 {
        assert(all[a.len() + b.len() + k] == order[i]);
    } else {
        assert(all[a.len() + b.len() + c.len() + k] == order[i]);
    }
}

proof fn lemma_select_contains(entries: Seq<SearchEntry>, order: Seq<usize>, kind: u8, i: int)
    requires
        0 <= i < order.len(),
        section_pred(kind, entries[order[i] as int]),
    ensures
        select(entries, order, kind).contains(order[i]),
    decreases order.len(),
{
    if i < order.len() - 1 {
        lemma_select_contains(entries, order.drop_last(), kind, i);
        let s = select(entries, order.drop_last(), kind);
        let k = choose|k: int| 0 <= k < s.len() && s[k] == order[i];
        assert(select(entries, order, kind)[k] == order[i]);
    } else {
        let s = select(entries, order, kind);
        assert(s[s.len() - 1] == order[i]);
    }
}

fn section_test(kind: u8, e: &SearchEntry) -> (r: bool)
    ensures
        r == section_pred(kind, *e),
{
    if kind == 0 {
        e.favorite
    } else if kind == 1 {
        !e.favorite && e.pinned
    } else if kind == 2 {
        !e.favorite && !e.pinned && e.last_opened_at.is_some()
    } else if kind == 3 {
        !e.favorite && !e.pinned && e.last_opened_at.is_none()
    } else {
        e.pinned
    }
}

/// The favorites section: the first `MAX_FAVORITES` favorites of `order`.
fn favorites_section(entries: &[SearchEntry], order: &Vec<usize>) -> (r: Vec<usize>)
    requires
        forall|k: int| 0 <= k < order@.len() ==> #[trigger] order@[k] < entries@.len(),
    ensures
        r@ == cap_favorites(select(entries@, order@, 0)),
{
    let mut kept: Vec<usize> = Vec::new();
    let mut k: usize = 0;
    assert(order@.take(0) =~= Seq::<usize>::empty());
    while k < order.len() && kept.len() < MAX_FAVORITES
        invariant
            forall|j: int| 0 <= j < order@.len() ==> #[trigger] order@[j] < entries@.len(),
            k <= order@.len(),
            kept@.len() <= MAX_FAVORITES,
            kept@ == select(entries@, order@.take(k as int), 0),
        decreases order@.len() - k,
    {
        let index = order[k];
        assert(order@.take(k + 1).drop_last() == order@.take(k as int));
        if entries[index].favorite {
            kept.push(index);
        }
        k = k + 1;
    }
    proof {
        lemma_select_prefix(entries@, order@, 0, k as int);
        if k == order@.len() {
            assert(order@.take(k as int) == order@);
        }
    }
    kept
}

/// Appends the section `kind` of `order` to `kept`.
fn append_section(kept: &mut Vec<usize>, entries: &[SearchEntry], order: &Vec<usize>, kind: u8)
    requires
        forall|k: int| 0 <= k < order@.len() ==> #[trigger] order@[k] < entries@.len(),
    ensures
        final(kept)@ == old(kept)@ + select(entries@, order@, kind),
{
    let ghost start = kept@;
    assert(order@.take(0) =~= Seq::<usize>::empty());
    assert(start + seq![] == start);
    for k in 0..order.len()
        invariant
            forall|j: int| 0 <= j < order@.len() ==> #[trigger] order@[j] < entries@.len(),
            kept@ == start + select(entries@, order@.take(k as int), kind),
    {
        let index = order[k];
        assert(order@.take(k + 1).drop_last() == order@.take(k as int));
        if section_test(kind, &entries[index]) {
            kept.push(index);
            assert(kept@ == start + select(entries@, order@.take(k + 1), kind));
        }
    }
    assert(order@.take(order@.len() as int) == order@);
}

/// Favorites first over the already ordered `order` (see
/// [`favorites_first_spec`]).
fn favorites_first_indices(entries: &[SearchEntry], order: &Vec<usize>) -> (r: Vec<usize>)
    requires
        forall|k: int| 0 <= k < order@.len() ==> #[trigger] order@[k] < entries@.len(),
    ensures
        r@ == favorites_first_spec(entries@, order@),
{
    let mut kept = favorites_section(entries, order);
    append_section(&mut kept, entries, order, 1);
    append_section(&mut kept, entries, order, 2);
    append_section(&mut kept, entries, order, 3);
    kept
}

/// The first `n` items of `s` (all of them when `s` is shorter).
pub open spec fn truncated(s: Seq<usize>, n: int) -> Seq<usize> {
    if s.len() > n {
        s.take(n)
    } else {
        s
    }
}

/// What a blank query shows over `entries` with filter `f` and settings `s`:
/// `NoData` without entries; `FilteredOut` when the filter keeps none; nothing
/// and no reason for the `Blank` strategy; otherwise the strategy's list over
/// the fully ordered kept entries, truncated to `max_results`, with
/// `FilteredOut` only when that list is empty.
pub open spec fn empty_query_outcome(entries: Seq<SearchEntry>, f: FilterSet, s: AppSettings, indices: Seq<usize>, reason: Option<NoResultReason>) -> bool {
    let kept = kept_indices(f, entries, entries.len() as int);
    if entries.len() == 0 {
        indices.len() == 0 && reason == Some(NoResultReason::NoData)
    } else if kept.len() == 0 {
        indices.len() == 0 && reason == Some(NoResultReason::FilteredOut)
    } else if s.empty_query_strategy == EmptyQueryStrategy::Blank {
        indices.len() == 0 && reason is None
    } else {
        &&& exists|sorted: Seq<usize>| #[trigger] sorted_permutation(entries, kept, sorted)
            && indices == truncated(strategy_spec(entries, sorted, s.empty_query_strategy), s.max_results as int)
        &&& reason == if indices.len() == 0 {
            Some(NoResultReason::FilteredOut)
        } else {
            None
        }
    }
}

/// What a filter-aware request answers: the blank-query outcome for an empty
/// query; otherwise `NoData` without entries, `FilteredOut` when the filter
/// keeps none, else the ranked results over the kept entries, with `NoMatch`
/// exactly when there are none.
pub open spec fn search_outcome(entries: Seq<SearchEntry>, q: Seq<(Seq<char>, TokenKind)>, f: FilterSet, s: AppSettings, options: HighlightOptions, r: SearchResponse) -> bool {
    let kept = kept_indices(f, entries, entries.len() as int);
    if q.len() == 0 {
        r.display matches SearchDisplay::EmptyQuery(ix) && empty_query_outcome(entries, f, s, ix@, r.no_result_reason)
    } else if entries.len() == 0 {
        r.display matches SearchDisplay::Ranked(v) && v@.len() == 0 && r.no_result_reason == Some(NoResultReason::NoData)
    } else if kept.len() == 0 {
        r.display matches SearchDisplay::Ranked(v) && v@.len() == 0 && r.no_result_reason == Some(NoResultReason::FilteredOut)
    } else {
        &&& r.display matches SearchDisplay::Ranked(v)
        &&& ranked_results(entries, kept, q, s, options, v@)
        &&& r.no_result_reason == if v@.len() == 0 {
            Some(NoResultReason::NoMatch)
        } else {
            None
        }
    }
}

/// Orders the distinct `candidates` fully, then applies `strategy`.
fn empty_query_candidate_indices(entries: &[SearchEntry], candidates: Vec<usize>, strategy: EmptyQueryStrategy) -> (r: Vec<usize>)
    requires
        forall|k: int| 0 <= k < candidates@.len() ==> #[trigger] candidates@[k] < entries@.len(),
        forall|a: int, b: int| 0 <= a < b < candidates@.len() ==> #[trigger] candidates@[a] != #[trigger] candidates@[b],
    ensures
        strategy_result(entries@, candidates@, strategy, r@),
{
    let sorted = sort_indices(entries, &candidates);
    assert forall|k: int| 0 <= k < sorted@.len() implies #[trigger] sorted@[k] < entries@.len() by {
        assert(sorted@.contains(sorted@[k]));
        let m = choose|m: int| 0 <= m < candidates@.len() && candidates@[m] == sorted@[k];
    }
    let r = match strategy {
        EmptyQueryStrategy::Blank => Vec::new(),
        EmptyQueryStrategy::PinnedOnly => {
            let mut pinned: Vec<usize> = Vec::new();
            append_section(&mut pinned, entries, &sorted, 4);
            assert(pinned@ == select(entries@, sorted@, 4));
            pinned
        },
        EmptyQueryStrategy::All => sorted,
        EmptyQueryStrategy::FavoritesFirst => favorites_first_indices(entries, &sorted),
    };
    assert(r@ == strategy_spec(entries@, sorted@, strategy));
    r
}

/// Applies `strategy` to every entry, fully ordered (see
/// [`strategy_result`]).
pub fn empty_query_indices(entries: &[SearchEntry], strategy: EmptyQueryStrategy) -> (r: Vec<usize>)
    ensures
        strategy_result(entries@, all_indices(entries@.len()), strategy, r@),
{
    let mut candidates: Vec<usize> = Vec::new();
    for i in 0..entries.len()
        invariant
            candidates@ == all_indices(i as nat),
    {
        candidates.push(i);
        assert(candidates@ =~= all_indices((i + 1) as nat));
    }
    empty_query_candidate_indices(entries, candidates, strategy)
}

/// The visible blank-query list after applying `filter` (see
/// [`empty_query_outcome`]).
pub fn empty_query(entries: &[SearchEntry], filter: &FilterSet, settings: &AppSettings) -> (r: EmptyQueryResult)
    ensures
        empty_query_outcome(entries@, *filter, *settings, r.indices@, r.no_result_reason),
{
    let n = entries.len();
    if n == 0 {
        return EmptyQueryResult { indices: Vec::new(), no_result_reason: Some(NoResultReason::NoData) };
    }
    let filtered = filter.apply(entries);
    if filtered.len() == 0 {
        return EmptyQueryResult { indices: Vec::new(), no_result_reason: Some(NoResultReason::FilteredOut) };
    }
    if settings.empty_query_strategy == EmptyQueryStrategy::Blank {
        return EmptyQueryResult { indices: Vec::new(), no_result_reason: None };
    }
    proof {
        lemma_kept_indices_ordered(*filter, entries@, n as int);
    }
    let mut visible = empty_query_candidate_indices(entries, filtered, settings.empty_query_strategy);
    let ghost all = visible@;
    let max = settings.max_results as usize;
    visible.truncate(max);
    assert(visible@ == truncated(all, settings.max_results as int)) by {
        if max <= all.len() {
            assert(all.subrange(0, max as int) == all.take(max as int));
            if max == all.len() {
                assert(all.take(max as int) == all);
            }
        }
    }
    let reason = if visible.len() == 0 {
        Some(NoResultReason::FilteredOut)
    } else {
        None
    };
    EmptyQueryResult { indices: visible, no_result_reason: reason }
}

/// One entry point for the presentation layer: applies `filter`, sends a
/// blank query to [`empty_query`], and otherwise ranks the kept entries (see
/// [`search_outcome`]).
pub fn search_with_filter(entries: &[SearchEntry], query: &Query, filter: &FilterSet, settings: &AppSettings, options: &HighlightOptions) -> (r: SearchResponse)
    ensures
        search_outcome(entries@, query@, *filter, *settings, *options, r),
{
    if query.tokens().len() == 0 {
        let result = empty_query(entries, filter, settings);
        return SearchResponse { display: SearchDisplay::EmptyQuery(result.indices), no_result_reason: result.no_result_reason };
    }
    let n = entries.len();
    if n == 0 {
        return SearchResponse { display: SearchDisplay::Ranked(Vec::new()), no_result_reason: Some(NoResultReason::NoData) };
    }
    let filtered = filter.apply(entries);
    if filtered.len() == 0 {
        return SearchResponse { display: SearchDisplay::Ranked(Vec::new()), no_result_reason: Some(NoResultReason::FilteredOut) };
    }
    proof {
        lemma_kept_indices_ordered(*filter, entries@, n as int);
    }
    let ranked = rank_candidates(entries, &filtered, query, settings, options);
    let reason = if ranked.len() == 0 {
        Some(NoResultReason::NoMatch)
    } else {
        None
    };
    SearchResponse { display: SearchDisplay::Ranked(ranked), no_result_reason: reason }
}

/// Selecting from a prefix gives a prefix of the full selection.
proof fn lemma_select_prefix(entries: Seq<SearchEntry>, order: Seq<usize>, kind: u8, n: int)
    requires
        0 <= n <= order.len(),
    ensures
        select(entries, order.take(n), kind).len() <= select(entries, order, kind).len(),
        select(entries, order.take(n), kind) == select(entries, order, kind).take(
            select(entries, order.take(n), kind).len() as int,
        ),
    decreases order.len() - n,
{
    if n < order.len() {
        lemma_select_prefix(entries, order.drop_last(), kind, n);
        assert(order.drop_last().take(n) == order.take(n));
        if n == order.len() - 1 {
        }
    } else {
        assert(order.take(n) == order);
    }
}

} // verus!
