//! The search window's logic: the single source of truth for the window,
//! with no UI machinery. The UI forwards gestures as [`ViewCommand`]s and
//! renders the exposed [`ViewState`].
//!
//! Every edit of the query starts a search under a fresh generation. The
//! injected runner answers synchronously (`Done`) or later (`Deferred`,
//! followed by a [`ViewCommand::SearchCompleted`] tagged with the generation
//! it ran under); a completion for a superseded generation is dropped and
//! flags the state stale. While an IME composition is active, Enter opens
//! nothing and the selection does not move; while an overlay is open, the
//! hide path is suppressed and nothing opens.

use vstd::prelude::*;

use crate::domain::{AppSettings, FolderId};
use crate::search::empty_query::{search_outcome, SearchDisplay, SearchResponse};
use crate::search::filter::FilterSet;
use crate::search::highlight::HighlightOptions;
use crate::search::query::{parse_spec, QueryParser};
use crate::search::search_entry::{same_entry, same_strings, RankedResult, SearchEntry};
use crate::search::{search_with_filter, Accessibility, NoResultReason};

use super::commands::{RowAction, SearchKey, SearchOutcome, ViewCommand};
use super::i18n::Locale;
use super::state::{can_open, moved, ResultRow, RowView, SearchFailure, SelectionMove, StateView, ViewState};
use super::theme::{scheme_for, tokens_of, ResolvedColorScheme, ResolvedTheme};

verus! {

/// A searchable entry plus the presenter-derived row label.
#[derive(Debug, Clone, PartialEq, Eq)]
pub struct ResolvedEntry {
    pub searchable: SearchEntry,
    /// Relative path label (typically the last path component).
    pub path_label: String,
}

/// The part of the filter model that changes search output.
#[derive(Debug, Clone, PartialEq, Eq, Structural)]
pub struct FilterState {
    pub pinned_only: bool,
    pub recent: bool,
}

impl Default for FilterState {
    fn default() -> (r: FilterState)
        ensures
            !r.pinned_only,
            !r.recent,
    {
        FilterState { pinned_only: false, recent: false }
    }
}

impl FilterState {
    /// The search filter with this state's two flags and no other dimension.
    pub fn into_filter(&self) -> (r: FilterSet)
        ensures
            r.pinned_only == self.pinned_only,
            r.recent == self.recent,
            r.category is None,
            r.tags@.len() == 0,
            r.accessibility is None,
            r.origin is None,
    {
        let mut filter = FilterSet::default();
        filter.pinned_only = self.pinned_only;
        filter.recent = self.recent;
        filter
    }
}

/// Whether a runner completed its work synchronously or deferred it.
#[derive(Debug, PartialEq, Eq)]
pub enum RunnerResponse {
    /// The kept entries in display order plus the empty-state reason.
    Done(Result<(Vec<ResolvedEntry>, Option<NoResultReason>), ()>),
    /// The work was queued; a later `SearchCompleted` with the same
    /// generation delivers the payload, and the window stays busy until then.
    Deferred,
}

/// Actions the search window asks the adapter to perform outside its state.
#[derive(Debug, Clone, Copy, PartialEq, Eq, Structural)]
pub enum ExternalEffect {
    /// Hide the root window.
    HideWindow,
    /// Open the selected entry.
    OpenEntry,
    /// Copy the selected path to the clipboard.
    CopyPath,
    /// Clear the query field (focus retained).
    ClearInput,
}

/// Seam through which the window surfaces external side effects.
pub trait ViewModelEffects {
    fn emit(&mut self, effect: ExternalEffect);
}

/// Effects sink that ignores every effect.
pub struct NoopEffects;

impl ViewModelEffects for NoopEffects {
    fn emit(&mut self, effect: ExternalEffect) {
    }
}

/// The row a resolved entry shows: its name, label, full path, category,
/// first tag, and whether it is inaccessible.
pub open spec fn row_view_of(e: ResolvedEntry) -> RowView {
    RowView {
        entry_id: e.searchable.id,
        display_name: e.searchable.display_name@,
        path_label: e.path_label@,
        full_path: e.searchable.path@,
        category_name: match e.searchable.category_name {
            Some(c) => Some(c@),
            None => None,
        },
        tag_texts: e.searchable.tag_names@.take(
            if e.searchable.tag_names@.len() > 0 {
                1int
            } else {
                0int
            },
        ).map_values(|t: String| t@),
        inaccessible: e.searchable.accessibility == Accessibility::Inaccessible,
    }
}

/// A selection kept only while it is within `n` rows.
pub open spec fn legal(selected: Option<usize>, n: nat) -> Option<usize> {
    match selected {
        Some(i) => if i < n {
            Some(i)
        } else {
            None
        },
        None => None,
    }
}

/// `v` showing the rows of `entries`, the selection legalized against them
/// and the filter no longer dirty.
pub open spec fn rebuilt(v: StateView, entries: Seq<ResolvedEntry>) -> StateView {
    StateView {
        rows: entries.map_values(|e: ResolvedEntry| row_view_of(e)),
        selected: legal(v.selected, entries.len()),
        filter_dirty: false,
        ..v
    }
}

/// `v` after a failed search: no rows, no selection, `NoMatch`, and the
/// search failure banner.
pub open spec fn failed_search(v: StateView) -> StateView {
    StateView {
        rows: seq![],
        selected: None,
        no_result_reason: Some(NoResultReason::NoMatch),
        failure: Some(SearchFailure::Search),
        ..v
    }
}

/// The view of a runner's synchronous result.
pub open spec fn result_view(r: Result<(Vec<ResolvedEntry>, Option<NoResultReason>), ()>) -> Result<(Seq<ResolvedEntry>, Option<NoResultReason>), ()> {
    match r {
        Ok((v, reason)) => Ok((v@, reason)),
        Err(_) => Err(()),
    }
}

/// `v` after a synchronous result for generation `g` while `current` is
/// active: a superseded result only flags the state stale; otherwise the
/// window is idle again and shows the result.
pub open spec fn after_result(v: StateView, current: u64, g: u64, result: Result<(Seq<ResolvedEntry>, Option<NoResultReason>), ()>) -> StateView {
    if current != g {
        StateView { stale: true, busy: Some(current), ..v }
    } else {
        let w = StateView { stale: false, busy: None, ..v };
        match result {
            Ok((es, reason)) => StateView { no_result_reason: reason, failure: None, ..rebuilt(w, es) },
            Err(_) => failed_search(w),
        }
    }
}

/// `v` after the runner answered `resp` to a search under generation `g`.
pub open spec fn after_response(v: StateView, g: u64, resp: RunnerResponse) -> StateView {
    match resp {
        RunnerResponse::Done(r) => after_result(v, g, g, result_view(r)),
        RunnerResponse::Deferred => v,
    }
}

/// The index of the first resolved entry with id `id`.
pub open spec fn first_with_id(rs: Seq<ResolvedEntry>, id: FolderId) -> Option<int>
    decreases rs.len(),
{
    if rs.len() == 0 {
        None
    } else if rs[0].searchable.id == id {
        Some(0)
    } else {
        match first_with_id(rs.drop_first(), id) {
            Some(j) => Some(j + 1),
            None => None,
        }
    }
}

/// The resolved entries of `ids`, in order: for each id the first entry
/// with it; ids without an entry are skipped.
pub open spec fn entries_for_ids(rs: Seq<ResolvedEntry>, ids: Seq<FolderId>) -> Seq<ResolvedEntry>
    decreases ids.len(),
{
    if ids.len() == 0 {
        seq![]
    } else {
        let prev = entries_for_ids(rs, ids.drop_last());
        match first_with_id(rs, ids.last()) {
            Some(j) => prev.push(rs[j]),
            None => prev,
        }
    }
}

/// `v` after an asynchronous completion for generation `g` while `current`
/// is active: a superseded completion is dropped (stale while a newer
/// search is busy); otherwise the window is idle again and shows the
/// outcome's entries.
pub open spec fn after_outcome(v: StateView, current: u64, g: u64, rs: Seq<ResolvedEntry>, result: Result<SearchOutcome, ()>) -> StateView {
    if current != g {
        StateView { stale: v.busy is Some, ..v }
    } else {
        let w = StateView { busy: None, stale: false, ..v };
        match result {
            Ok(o) => StateView {
                no_result_reason: o.no_result_reason,
                failure: None,
                ..rebuilt(w, entries_for_ids(rs, o.entry_ids@))
            },
            Err(_) => failed_search(w),
        }
    }
}

/// The index of the first row showing entry `id`.
pub open spec fn row_with_id(rows: Seq<RowView>, id: FolderId) -> Option<int>
    decreases rows.len(),
{
    if rows.len() == 0 {
        None
    } else if rows[0].entry_id == id {
        Some(0)
    } else {
        match row_with_id(rows.drop_first(), id) {
            Some(j) => Some(j + 1),
            None => None,
        }
    }
}

/// The open request: only with a selected row, no IME composition and no
/// overlay open.
pub open spec fn open_step(v: StateView) -> (StateView, Seq<ExternalEffect>) {
    if can_open(v) && !v.overlay_open {
        (v, seq![ExternalEffect::OpenEntry])
    } else {
        (v, seq![])
    }
}

/// A selection move, ignored while an IME composition is active.
pub open spec fn move_step(v: StateView, m: SelectionMove) -> (StateView, Seq<ExternalEffect>) {
    if v.ime_composition_active {
        (v, seq![])
    } else {
        (StateView { selected: moved(m, v.selected, v.rows.len() as usize), ..v }, seq![])
    }
}

/// What a command that starts no search does to the window: the key map
/// (Enter opens, arrows move, Esc closes an overlay or else hides, Alt+H
/// toggles hints), row selection by index or id (not while composing), row
/// actions, the filter toggle, the overlay gate and hide requests (deferred
/// while an overlay is open).
pub open spec fn local_step(v: StateView, command: ViewCommand) -> (StateView, Seq<ExternalEffect>) {
    match command {
        ViewCommand::SearchKey(key) => match key {
            SearchKey::Enter => if !v.ime_composition_active {
                open_step(v)
            } else {
                (v, seq![])
            },
            SearchKey::UpDown(m) => move_step(v, m),
            SearchKey::Escape => if v.overlay_open {
                (StateView { overlay_open: false, ..v }, seq![])
            } else {
                (v, seq![ExternalEffect::HideWindow])
            },
            SearchKey::ToggleHints => (StateView { keyboard_hint_visible: !v.keyboard_hint_visible, ..v }, seq![]),
            SearchKey::Other => (v, seq![]),
        },
        ViewCommand::SelectMove(m) => move_step(v, m),
        ViewCommand::SelectIndex(i) => if !v.ime_composition_active && i < v.rows.len() {
            (StateView { selected: Some(i), ..v }, seq![])
        } else {
            (v, seq![])
        },
        ViewCommand::SelectId(id) => if v.ime_composition_active {
            (v, seq![])
        } else {
            match row_with_id(v.rows, id) {
                Some(p) => (StateView { selected: Some(p as usize), ..v }, seq![]),
                None => (v, seq![]),
            }
        },
        ViewCommand::RowAction(action) => match action {
            RowAction::Open => open_step(v),
            RowAction::ContextMenu => (StateView { overlay_open: true, ..v }, seq![]),
            RowAction::CopyPath => if v.selected matches Some(i) && i < v.rows.len() {
                (v, seq![ExternalEffect::CopyPath])
            } else {
                (v, seq![])
            },
        },
        ViewCommand::ToggleFilters => (StateView { filter_dirty: true, overlay_open: true, ..v }, seq![]),
        ViewCommand::SetOverlay(open) => (StateView { overlay_open: open, ..v }, seq![]),
        ViewCommand::HideRequested => if v.overlay_open {
            (v, seq![])
        } else {
            (v, seq![ExternalEffect::HideWindow])
        },
        _ => (v, seq![]),
    }
}

/// Whether `a` is a copy of `b`.
pub open spec fn same_resolved(a: ResolvedEntry, b: ResolvedEntry) -> bool {
    same_entry(a.searchable, b.searchable) && a.path_label@ == b.path_label@
}

/// Whether `a` and `b` hold copies of the same entries, in order.
pub open spec fn same_resolved_seq(a: Seq<ResolvedEntry>, b: Seq<ResolvedEntry>) -> bool {
    a.len() == b.len() && forall|k: int| 0 <= k < a.len() ==> same_resolved(#[trigger] a[k], b[k])
}

/// Law: copies show the same row.
pub proof fn lemma_copies_show_the_same_row(a: ResolvedEntry, b: ResolvedEntry)
    requires
        same_resolved(a, b),
    ensures
        row_view_of(a) == row_view_of(b),
{
    let ta = a.searchable.tag_names@;
    let tb = b.searchable.tag_names@;
    let n: int = if ta.len() > 0 {
        1
    } else {
        0
    };
    assert(ta.take(n).map_values(|t: String| t@) =~= tb.take(n).map_values(|t: String| t@));
    assert(row_view_of(a) =~= row_view_of(b));
}

/// The index of the last resolved entry with id `id`.
pub open spec fn last_with_id(rs: Seq<ResolvedEntry>, id: FolderId) -> Option<int>
    decreases rs.len(),
{
    if rs.len() == 0 {
        None
    } else if rs.last().searchable.id == id {
        Some(rs.len() - 1)
    } else {
        last_with_id(rs.drop_last(), id)
    }
}

/// The resolved entries of ranked results: for each result the last entry
/// with its id; results without one are skipped.
pub open spec fn ranked_kept(rs: Seq<ResolvedEntry>, results: Seq<RankedResult>) -> Seq<ResolvedEntry>
    decreases results.len(),
{
    if results.len() == 0 {
        seq![]
    } else {
        let prev = ranked_kept(rs, results.drop_last());
        match last_with_id(rs, results.last().entry_id) {
            Some(j) => prev.push(rs[j]),
            None => prev,
        }
    }
}

/// The resolved entries at `ix`, skipping indices out of range.
pub open spec fn indexed_kept(rs: Seq<ResolvedEntry>, ix: Seq<usize>) -> Seq<ResolvedEntry>
    decreases ix.len(),
{
    if ix.len() == 0 {
        seq![]
    } else {
        let prev = indexed_kept(rs, ix.drop_last());
        if ix.last() < rs.len() {
            prev.push(rs[ix.last() as int])
        } else {
            prev
        }
    }
}

/// The resolved entries a response shows, in display order.
pub open spec fn kept_for_display(rs: Seq<ResolvedEntry>, display: SearchDisplay) -> Seq<ResolvedEntry> {
    match display {
        SearchDisplay::Ranked(v) => ranked_kept(rs, v@),
        SearchDisplay::EmptyQuery(ix) => indexed_kept(rs, ix@),
    }
}

impl ResolvedEntry {
    /// A copy of this entry (see [`same_resolved`]).
    pub fn copy(&self) -> (r: ResolvedEntry)
        ensures
            same_resolved(r, *self),
    {
        ResolvedEntry { searchable: self.searchable.copy(), path_label: self.path_label.clone() }
    }
}

/// Resolved entries for `searchable`, each labelled by `path_labels`.
pub fn resolved_from_search<F: Fn(&SearchEntry) -> String>(searchable: &[SearchEntry], path_labels: F) -> (r: Vec<ResolvedEntry>)
    requires
        forall|e: &SearchEntry| call_requires(path_labels, (e,)),
    ensures
        r@.len() == searchable@.len(),
        forall|k: int| 0 <= k < r@.len() ==> same_entry(#[trigger] r@[k].searchable, searchable@[k])
            && call_ensures(path_labels, (&searchable@[k],), r@[k].path_label),
{
    let mut r: Vec<ResolvedEntry> = Vec::new();
    for i in 0..searchable.len()
        invariant
            forall|e: &SearchEntry| call_requires(path_labels, (e,)),
            r@.len() == i,
            forall|k: int| 0 <= k < i ==> same_entry(#[trigger] r@[k].searchable, searchable@[k])
                && call_ensures(path_labels, (&searchable@[k],), r@[k].path_label),
    {
        let entry = &searchable[i];
        let label = path_labels(entry);
        r.push(ResolvedEntry { searchable: entry.copy(), path_label: label });
    }
    r
}

fn last_index(rs: &[ResolvedEntry], id: FolderId) -> (r: Option<usize>)
    ensures
        r matches Some(i) ==> last_with_id(rs@, id) == Some(i as int) && i < rs@.len(),
        r is None ==> last_with_id(rs@, id) is None,
{
    let mut i: usize = rs.len();
    assert(rs@.take(rs@.len() as int) == rs@);
    while i > 0
        invariant
            i <= rs@.len(),
            last_with_id(rs@, id) == last_with_id(rs@.take(i as int), id),
        decreases i,
    {
        assert(rs@.take(i as int).drop_last() == rs@.take(i - 1));
        assert(rs@.take(i as int).last() == rs@[i - 1]);
        if rs[i - 1].searchable.id == id {
            return Some(i - 1);
        }
        i = i - 1;
    }
    None
}

/// The default synchronous runner: parses the query, applies the filter,
/// runs [`search_with_filter`] over copies of the entries, and maps the
/// displayed results back to the resolved entries (by id for ranked
/// results, the last entry with that id; by index for an empty query).
pub fn default_runner(resolved: &[ResolvedEntry], query: &str, filter: &FilterState, settings: &AppSettings) -> (r: RunnerResponse)
    ensures
        exists|entries: Seq<SearchEntry>, fs: FilterSet, resp: SearchResponse|
            #[trigger] search_outcome(entries, parse_spec(query@), fs, *settings, HighlightOptions { compute_highlights: true }, resp)
                && entries.len() == resolved@.len()
                && (forall|i: int| 0 <= i < entries.len() ==> same_entry(#[trigger] entries[i], resolved@[i].searchable))
                && fs.pinned_only == filter.pinned_only && fs.recent == filter.recent && fs.category is None
                && fs.tags@.len() == 0 && fs.accessibility is None && fs.origin is None
                && (r matches RunnerResponse::Done(Ok((kept, reason))) && reason == resp.no_result_reason
                    && same_resolved_seq(kept@, kept_for_display(resolved@, resp.display))),
{
    let parser = QueryParser;
    let parsed = parser.parse(query);
    let filter_set = filter.into_filter();
    let mut entries: Vec<SearchEntry> = Vec::new();
    for i in 0..resolved.len()
        invariant
            entries@.len() == i,
            forall|k: int| 0 <= k < i ==> same_entry(#[trigger] entries@[k], resolved@[k].searchable),
    {
        entries.push(resolved[i].searchable.copy());
    }
    let options = HighlightOptions::default();
    let response = search_with_filter(entries.as_slice(), &parsed, &filter_set, settings, &options);
    let mut kept: Vec<ResolvedEntry> = Vec::new();
    match &response.display {
        SearchDisplay::Ranked(results) => {
            for k in 0..results.len()
                invariant
                    same_resolved_seq(kept@, ranked_kept(resolved@, results@.take(k as int))),
            {
                assert(results@.take(k + 1).drop_last() == results@.take(k as int));
                assert(results@.take(k + 1).last() == results@[k as int]);
                match last_index(resolved, results[k].entry_id) {
                    Some(j) => {
                        kept.push(resolved[j].copy());
                    },
                    None => {},
                }
            }
            assert(results@.take(results@.len() as int) == results@);
        },
        SearchDisplay::EmptyQuery(indices) => {
            for k in 0..indices.len()
                invariant
                    same_resolved_seq(kept@, indexed_kept(resolved@, indices@.take(k as int))),
            {
                assert(indices@.take(k + 1).drop_last() == indices@.take(k as int));
                assert(indices@.take(k + 1).last() == indices@[k as int]);
                let index = indices[k];
                if index < resolved.len() {
                    kept.push(resolved[index].copy());
                }
            }
            assert(indices@.take(indices@.len() as int) == indices@);
        },
    }
    let reason = response.no_result_reason;
    let r = RunnerResponse::Done(Ok((kept, reason)));
    assert(search_outcome(entries@, parse_spec(query@), filter_set, *settings, HighlightOptions { compute_highlights: true }, response));
    r
}

/// Law: while an IME composition is active, Enter opens nothing and no
/// selection command moves the selection.
pub proof fn lemma_ime_gate(v: StateView, m: SelectionMove, i: usize, id: FolderId)
    requires
        v.ime_composition_active,
    ensures
        local_step(v, ViewCommand::SearchKey(SearchKey::Enter)) == (v, Seq::<ExternalEffect>::empty()),
        local_step(v, ViewCommand::SelectMove(m)) == (v, Seq::<ExternalEffect>::empty()),
        local_step(v, ViewCommand::SearchKey(SearchKey::UpDown(m))) == (v, Seq::<ExternalEffect>::empty()),
        local_step(v, ViewCommand::SelectIndex(i)) == (v, Seq::<ExternalEffect>::empty()),
        local_step(v, ViewCommand::SelectId(id)) == (v, Seq::<ExternalEffect>::empty()),
{
}

/// Law: while an overlay is open, the window is never hidden and nothing
/// opens.
pub proof fn lemma_overlay_gate(v: StateView)
    requires
        v.overlay_open,
    ensures
        local_step(v, ViewCommand::HideRequested) == (v, Seq::<ExternalEffect>::empty()),
        local_step(v, ViewCommand::RowAction(RowAction::Open)) == (v, Seq::<ExternalEffect>::empty()),
        local_step(v, ViewCommand::SearchKey(SearchKey::Enter)).1 == Seq::<ExternalEffect>::empty(),
        local_step(v, ViewCommand::SearchKey(SearchKey::Escape)).1 == Seq::<ExternalEffect>::empty(),
{
}

/// Law: a completion for a superseded generation never changes what the
/// window shows; it only flags the state stale while a newer search is busy.
pub proof fn lemma_superseded_completion_is_dropped(v: StateView, current: u64, g: u64, rs: Seq<ResolvedEntry>, result: Result<SearchOutcome, ()>)
    requires
        current != g,
    ensures
        after_outcome(v, current, g, rs, result) == (StateView { stale: v.busy is Some, ..v }),
        after_outcome(v, current, g, rs, result).rows == v.rows,
        after_outcome(v, current, g, rs, result).busy == v.busy,
{
}

/// Law: after any accepted result the selection, if any, is within the
/// rows.
pub proof fn lemma_selection_stays_legal(v: StateView, entries: Seq<ResolvedEntry>)
    ensures
        rebuilt(v, entries).selected matches Some(i) ==> i < rebuilt(v, entries).rows.len(),
{
}

/// The search window: its state, the active generation, the settings, the
/// resolved entries, the injected runner and the effects sink.
pub struct SearchViewModel<R, E> where
    R: Fn(&[ResolvedEntry], &str, &FilterState, &AppSettings) -> RunnerResponse,
    E: ViewModelEffects,
 {
    state: ViewState,
    generation: u64,
    settings: AppSettings,
    resolved: Vec<ResolvedEntry>,
    runner: R,
    effects: E,
}

impl<R, E> SearchViewModel<R, E> where
    R: Fn(&[ResolvedEntry], &str, &FilterState, &AppSettings) -> RunnerResponse,
    E: ViewModelEffects,
 {
    /// Whether the runner accepts every request.
    pub open spec fn runner_total(self) -> bool {
        forall|a: &[ResolvedEntry], q: &str, f: &FilterState, s: &AppSettings| call_requires(self.runner_of(), (a, q, f, s))
    }

    /// What the window shows.
    pub closed spec fn shown(self) -> StateView {
        self.state@
    }

    /// The active generation.
    pub closed spec fn active_generation(self) -> u64 {
        self.generation
    }

    /// The settings searches run with.
    pub closed spec fn search_settings(self) -> AppSettings {
        self.settings
    }

    /// The entries searches run over.
    pub closed spec fn entries(self) -> Seq<ResolvedEntry> {
        self.resolved@
    }

    /// The injected runner.
    pub closed spec fn runner_of(self) -> R {
        self.runner
    }

    /// Whether the runner, asked for `query` over this window's entries
    /// and settings with an empty filter, may answer `resp`.
    pub open spec fn answers(self, query: Seq<char>, resp: RunnerResponse) -> bool {
        exists|a: &[ResolvedEntry], q: &str, f: &FilterState, s: &AppSettings|
            a@ == self.entries() && q@ == query && !f.pinned_only && !f.recent && *s == self.search_settings()
                && #[trigger] call_ensures(self.runner_of(), (a, q, f, s), resp)
    }

    /// Whether `after` is `before` with a search for `v.query` started
    /// under the next generation from the state `v`.
    pub open spec fn searched(before: Self, after: Self, v: StateView) -> bool {
        let g = before.active_generation().wrapping_add(1);
        &&& after.active_generation() == g
        &&& exists|resp: RunnerResponse| #[trigger] before.answers(v.query, resp)
            && after.shown() == after_response(StateView { busy: Some(g), stale: false, ..v }, g, resp)
    }

    proof fn lemma_searched_frame(before: Self, mid: Self, after: Self, v: StateView)
        requires
            mid.active_generation() == before.active_generation(),
            mid.entries() == before.entries(),
            mid.search_settings() == before.search_settings(),
            mid.runner_of() == before.runner_of(),
            Self::searched(mid, after, v),
        ensures
            Self::searched(before, after, v),
    {
        let g = before.active_generation().wrapping_add(1);
        let resp = choose|resp: RunnerResponse| #[trigger] mid.answers(v.query, resp)
            && after.shown() == after_response((StateView { busy: Some(g), stale: false, ..v }), g, resp);
        let (a, q, f, s) = choose|a: &[ResolvedEntry], q: &str, f: &FilterState, s: &AppSettings|
            a@ == mid.entries() && q@ == v.query && !f.pinned_only && !f.recent && *s == mid.search_settings()
                && #[trigger] call_ensures(mid.runner_of(), (a, q, f, s), resp);
        assert(before.answers(v.query, resp));
    }

    /// A window over `resolved` with `settings`, showing the empty-query
    /// list of generation 0.
    pub fn new(settings: AppSettings, resolved: Vec<ResolvedEntry>, runner: R, effects: E) -> (r: Self)
        requires
            forall|a: &[ResolvedEntry], q: &str, f: &FilterState, s: &AppSettings| call_requires(runner, (a, q, f, s)),
        ensures
            r.active_generation() == 0,
            r.search_settings() == settings,
            r.entries() == resolved@,
            r.runner_of() == runner,
            exists|resp: RunnerResponse| #[trigger] r.answers(seq![], resp) && r.shown() == after_response(
                (StateView {
                    query: seq![],
                    rows: seq![],
                    selected: None,
                    busy: Some(0),
                    stale: false,
                    no_result_reason: None,
                    failure: None,
                    theme: tokens_of(scheme_for(settings.theme, ResolvedColorScheme::Light)),
                    locale: Locale::ZhCN,
                    filter_dirty: false,
                    overlay_open: false,
                    ime_composition_active: false,
                    keyboard_hint_visible: true,
                }),
                0,
                resp,
            ),
    {
        let mut state = ViewState::default();
        state.theme = ResolvedTheme::resolve(settings.theme, ResolvedColorScheme::Light);
        state.busy = Some(0);
        let mut view_model = SearchViewModel { state, generation: 0, settings, resolved, runner, effects };
        let response = view_model.compute_search();
        let ghost start = view_model.shown();
        assert(start =~= (StateView {
            query: seq![],
            rows: seq![],
            selected: None,
            busy: Some(0),
            stale: false,
            no_result_reason: None,
            failure: None,
            theme: tokens_of(scheme_for(settings.theme, ResolvedColorScheme::Light)),
            locale: Locale::ZhCN,
            filter_dirty: false,
            overlay_open: false,
            ime_composition_active: false,
            keyboard_hint_visible: true,
        }));
        view_model.accept_response(0, response);
        assert(view_model.answers(seq![], response));
        view_model
    }

    /// The current state.
    pub fn state(&self) -> (r: &ViewState)
        ensures
            r@ == self.shown(),
    {
        &self.state
    }

    /// Sets the locale.
    pub fn set_locale(&mut self, locale: Locale)
        ensures
            final(self).shown() == (StateView { locale, ..old(self).shown() }),
            final(self).active_generation() == old(self).active_generation(),
            final(self).search_settings() == old(self).search_settings(),
            final(self).entries() == old(self).entries(),
            final(self).runner_of() == old(self).runner_of(),
    {
        self.state.locale = locale;
    }

    /// Sets the resolved theme (the adapter resolves `System` first).
    pub fn set_theme(&mut self, theme: ResolvedTheme)
        ensures
            final(self).shown() == (StateView { theme, ..old(self).shown() }),
            final(self).active_generation() == old(self).active_generation(),
            final(self).search_settings() == old(self).search_settings(),
            final(self).entries() == old(self).entries(),
            final(self).runner_of() == old(self).runner_of(),
    {
        self.state.theme = theme;
    }

    /// The IME gate: the adapter sets it while a composition is active.
    pub fn set_ime_composition(&mut self, active: bool)
        ensures
            final(self).shown() == (StateView { ime_composition_active: active, ..old(self).shown() }),
            final(self).active_generation() == old(self).active_generation(),
            final(self).search_settings() == old(self).search_settings(),
            final(self).entries() == old(self).entries(),
            final(self).runner_of() == old(self).runner_of(),
    {
        self.state.ime_composition_active = active;
    }

    /// Surfaces a folder-open failure; rows and selection stay so retry and
    /// copy keep working.
    pub fn set_open_failure(&mut self)
        ensures
            final(self).shown() == (StateView { failure: Some(SearchFailure::Open), ..old(self).shown() }),
            final(self).active_generation() == old(self).active_generation(),
            final(self).search_settings() == old(self).search_settings(),
            final(self).entries() == old(self).entries(),
            final(self).runner_of() == old(self).runner_of(),
    {
        self.state.failure = Some(SearchFailure::Open);
    }

    /// Clears an open-failure banner (other failures stay).
    pub fn clear_failure(&mut self)
        ensures
            final(self).shown() == if old(self).shown().failure == Some(SearchFailure::Open) {
                (StateView { failure: None, ..old(self).shown() })
            } else {
                old(self).shown()
            },
            final(self).active_generation() == old(self).active_generation(),
            final(self).search_settings() == old(self).search_settings(),
            final(self).entries() == old(self).entries(),
            final(self).runner_of() == old(self).runner_of(),
    {
        if self.state.failure == Some(SearchFailure::Open) {
            self.state.failure = None;
        }
    }

    /// The active generation (for an adapter that runs searches elsewhere
    /// and later reports `SearchCompleted`).
    pub fn generation(&self) -> (r: u64)
        ensures
            r == self.active_generation(),
    {
        self.generation
    }

    /// The filter model searches run with (always empty here).
    pub fn current_filter(&self) -> (r: FilterState)
        ensures
            !r.pinned_only,
            !r.recent,
    {
        FilterState::default()
    }

    /// Applies one command and returns the effects the adapter must perform,
    /// in order (also handed to the effects sink): a query edit or clear
    /// starts a search (see [`Self::searched`]); a completion is accepted
    /// per [`after_outcome`]; every other command per [`local_step`].
    pub fn handle(&mut self, command: ViewCommand) -> (effects: Vec<ExternalEffect>)
        requires
            old(self).runner_total(),
        ensures
            final(self).search_settings() == old(self).search_settings(),
            final(self).entries() == old(self).entries(),
            final(self).runner_of() == old(self).runner_of(),
            match command {
                ViewCommand::QueryEdited(text) => if text@ == old(self).shown().query {
                    final(self).shown() == old(self).shown() && final(self).active_generation()
                        == old(self).active_generation() && effects@ == Seq::<ExternalEffect>::empty()
                } else {
                    Self::searched(
                        *old(self),
                        *final(self),
                        (StateView { query: text@, failure: None, selected: None, ..old(self).shown() }),
                    ) && effects@ == Seq::<ExternalEffect>::empty()
                },
                ViewCommand::ClearQuery => if old(self).shown().query.len() == 0 {
                    final(self).shown() == old(self).shown() && final(self).active_generation()
                        == old(self).active_generation() && effects@ == Seq::<ExternalEffect>::empty()
                } else {
                    Self::searched(
                        *old(self),
                        *final(self),
                        (StateView { query: seq![], selected: None, ..old(self).shown() }),
                    ) && effects@ == seq![ExternalEffect::ClearInput]
                },
                ViewCommand::SearchCompleted { generation, result } => final(self).active_generation()
                    == old(self).active_generation() && final(self).shown() == after_outcome(
                    old(self).shown(),
                    old(self).active_generation(),
                    generation,
                    old(self).entries(),
                    result,
                ) && effects@ == Seq::<ExternalEffect>::empty(),
                _ => final(self).active_generation() == old(self).active_generation() && (final(self).shown(), effects@)
                    == local_step(old(self).shown(), command),
            },
    {
        match command {
            ViewCommand::QueryEdited(text) => self.query_edited(text),
            ViewCommand::ClearQuery => self.clear_query(),
            ViewCommand::SearchKey(key) => self.search_key(key),
            ViewCommand::SelectMove(movement) => self.select_move_with_ime(movement),
            ViewCommand::SelectIndex(index) => self.select_index(index),
            ViewCommand::SelectId(id) => self.select_id(id),
            ViewCommand::RowAction(action) => self.row_action(action),
            ViewCommand::ToggleFilters => {
                self.state.filter_dirty = true;
                self.state.overlay_open = true;
                Vec::new()
            },
            ViewCommand::SetOverlay(open) => {
                self.state.overlay_open = open;
                Vec::new()
            },
            ViewCommand::SearchCompleted { generation, result } => self.accept_outcome(generation, result),
            ViewCommand::HideRequested => self.hide_requested(),
            ViewCommand::ExitRequested => Vec::new(),
        }
    }

    fn compute_search(&self) -> (resp: RunnerResponse)
        requires
            self.runner_total(),
        ensures
            self.answers(self.shown().query, resp),
    {
        let filter = FilterState::default();
        let entries = self.resolved.as_slice();
        let query = self.state.query.as_str();
        assert(call_requires(self.runner_of(), (entries, query, &filter, &self.settings)));
        let resp = (self.runner)(entries, query, &filter, &self.settings);
        assert(call_ensures(self.runner_of(), (entries, query, &filter, &self.settings), resp));
        resp
    }

    fn row_for(e: &ResolvedEntry) -> (r: ResultRow)
        ensures
            r@ == row_view_of(*e),
    {
        let mut tags: Vec<String> = Vec::new();
        if e.searchable.tag_names.len() > 0 {
            tags.push(e.searchable.tag_names[0].clone());
        }
        let r = ResultRow {
            entry_id: e.searchable.id,
            display_name: e.searchable.display_name.clone(),
            path_label: e.path_label.clone(),
            full_path: e.searchable.path.clone(),
            category_name: match &e.searchable.category_name {
                Some(c) => Some(c.clone()),
                None => None,
            },
            tag_texts: tags,
            inaccessible: e.searchable.accessibility == Accessibility::Inaccessible,
        };
        assert(r@.tag_texts =~= row_view_of(*e).tag_texts);
        r
    }

    fn set_rows(&mut self, rows: Vec<ResultRow>)
        ensures
            final(self).shown() == (StateView {
                rows: rows@.map_values(|r: ResultRow| r@),
                selected: legal(old(self).shown().selected, rows@.len()),
                filter_dirty: false,
                ..old(self).shown()
            }),
            final(self).active_generation() == old(self).active_generation(),
            final(self).search_settings() == old(self).search_settings(),
            final(self).entries() == old(self).entries(),
            final(self).runner_of() == old(self).runner_of(),
    {
        let n = rows.len();
        self.state.selected = match self.state.selected {
            Some(index) => if index < n {
                Some(index)
            } else {
                None
            },
            None => None,
        };
        self.state.rows = rows;
        self.state.filter_dirty = false;
    }

    fn accept_response(&mut self, generation: u64, response: RunnerResponse)
        requires
            old(self).active_generation() == generation,
        ensures
            final(self).shown() == after_response(old(self).shown(), generation, response),
            final(self).active_generation() == old(self).active_generation(),
            final(self).search_settings() == old(self).search_settings(),
            final(self).entries() == old(self).entries(),
            final(self).runner_of() == old(self).runner_of(),
    {
        match response {
            RunnerResponse::Done(result) => {
                self.state.stale = false;
                self.state.busy = None;
                match result {
                    Ok((entries, reason)) => {
                        let mut rows: Vec<ResultRow> = Vec::new();
                        for k in 0..entries.len()
                            invariant
                                rows@.len() == k,
                                forall|j: int| 0 <= j < k ==> #[trigger] rows@[j]@ == row_view_of(entries@[j]),
                        {
                            rows.push(Self::row_for(&entries[k]));
                        }
                        assert(rows@.map_values(|r: ResultRow| r@) =~= entries@.map_values(|e: ResolvedEntry| row_view_of(e)));
                        self.set_rows(rows);
                        self.state.no_result_reason = reason;
                        self.state.failure = None;
                    },
                    Err(()) => {
                        self.state.rows = Vec::new();
                        self.state.selected = None;
                        self.state.no_result_reason = Some(NoResultReason::NoMatch);
                        self.state.failure = Some(SearchFailure::Search);
                    },
                }
            },
            RunnerResponse::Deferred => {},
        }
    }

    fn run_search(&mut self)
        requires
            old(self).runner_total(),
        ensures
            Self::searched(*old(self), *final(self), old(self).shown()),
            final(self).search_settings() == old(self).search_settings(),
            final(self).entries() == old(self).entries(),
            final(self).runner_of() == old(self).runner_of(),
    {
        self.generation = self.generation.wrapping_add(1);
        let generation = self.generation;
        self.state.busy = Some(generation);
        self.state.stale = false;
        assert(self.runner_of() == old(self).runner_of());
        assert(self.runner_total());
        let response = self.compute_search();
        let ghost resp = response;
        let ghost mid = *self;
        self.accept_response(generation, response);
        assert(old(self).answers(old(self).shown().query, resp));
    }

    fn query_edited(&mut self, text: String) -> (effects: Vec<ExternalEffect>)
        requires
            old(self).runner_total(),
        ensures
            final(self).search_settings() == old(self).search_settings(),
            final(self).entries() == old(self).entries(),
            final(self).runner_of() == old(self).runner_of(),
            if text@ == old(self).shown().query {
                final(self).shown() == old(self).shown() && final(self).active_generation()
                    == old(self).active_generation() && effects@ == Seq::<ExternalEffect>::empty()
            } else {
                Self::searched(
                    *old(self),
                    *final(self),
                    (StateView { query: text@, failure: None, selected: None, ..old(self).shown() }),
                ) && effects@ == Seq::<ExternalEffect>::empty()
            },
    {
        if crate::text::str_equal(text.as_str(), self.state.query.as_str()) {
            return Vec::new();
        }
        self.state.query = text;
        self.state.failure = None;
        self.state.selected = None;
        assert(self.runner_of() == old(self).runner_of());
        let ghost v = (StateView { query: text@, failure: None, selected: None, ..old(self).shown() });
        assert(self.shown() =~= v);
        let ghost mid = *self;
        self.run_search();
        proof {
            Self::lemma_searched_frame(*old(self), mid, *self, v);
        }
        Vec::new()
    }

    fn clear_query(&mut self) -> (effects: Vec<ExternalEffect>)
        requires
            old(self).runner_total(),
        ensures
            final(self).search_settings() == old(self).search_settings(),
            final(self).entries() == old(self).entries(),
            final(self).runner_of() == old(self).runner_of(),
            if old(self).shown().query.len() == 0 {
                final(self).shown() == old(self).shown() && final(self).active_generation()
                    == old(self).active_generation() && effects@ == Seq::<ExternalEffect>::empty()
            } else {
                Self::searched(
                    *old(self),
                    *final(self),
                    (StateView { query: seq![], selected: None, ..old(self).shown() }),
                ) && effects@ == seq![ExternalEffect::ClearInput]
            },
    {
        let current = crate::text::chars_of(self.state.query.as_str());
        if current.len() == 0 {
            return Vec::new();
        }
        self.state.query = String::new();
        self.state.selected = None;
        assert(self.runner_of() == old(self).runner_of());
        let ghost v = (StateView { query: seq![], selected: None, ..old(self).shown() });
        assert(self.shown() =~= v);
        let ghost mid = *self;
        self.run_search();
        proof {
            Self::lemma_searched_frame(*old(self), mid, *self, v);
        }
        let mut effects: Vec<ExternalEffect> = Vec::new();
        effects.push(ExternalEffect::ClearInput);
        effects
    }

    fn accept_outcome(&mut self, generation: u64, result: Result<SearchOutcome, ()>) -> (effects: Vec<ExternalEffect>)
        ensures
            final(self).shown() == after_outcome(old(self).shown(), old(self).active_generation(), generation, old(self).entries(), result),
            final(self).active_generation() == old(self).active_generation(),
            final(self).search_settings() == old(self).search_settings(),
            final(self).entries() == old(self).entries(),
            final(self).runner_of() == old(self).runner_of(),
            effects@ == Seq::<ExternalEffect>::empty(),
    {
        if self.generation != generation {
            self.state.stale = self.state.busy.is_some();
            return Vec::new();
        }
        self.state.busy = None;
        self.state.stale = false;
        match result {
            Ok(outcome) => {
                let mut rows: Vec<ResultRow> = Vec::new();
                let ghost rs = self.resolved@;
                for k in 0..outcome.entry_ids.len()
                    invariant
                        rs == self.resolved@,
                        rows@.map_values(|r: ResultRow| r@) == entries_for_ids(rs, outcome.entry_ids@.take(k as int)).map_values(
                            |e: ResolvedEntry| row_view_of(e),
                        ),
                {
                    let id = outcome.entry_ids[k];
                    assert(outcome.entry_ids@.take(k + 1).drop_last() == outcome.entry_ids@.take(k as int));
                    let found = Self::find_first(&self.resolved, id);
                    assert(outcome.entry_ids@.take(k + 1).last() == id);
                    match found {
                        Some(j) => {
                            assert(first_with_id(rs, id) == Some(j as int));
                            assert(entries_for_ids(rs, outcome.entry_ids@.take(k + 1)) == entries_for_ids(
                                rs,
                                outcome.entry_ids@.take(k as int),
                            ).push(rs[j as int]));
                            let ghost before = rows@;
                            rows.push(Self::row_for(&self.resolved[j]));
                            assert(rows@.map_values(|r: ResultRow| r@) =~= before.map_values(|r: ResultRow| r@).push(
                                row_view_of(rs[j as int]),
                            ));
                            assert(entries_for_ids(rs, outcome.entry_ids@.take(k + 1)).map_values(|e: ResolvedEntry| row_view_of(e))
                                =~= entries_for_ids(rs, outcome.entry_ids@.take(k as int)).map_values(|e: ResolvedEntry| row_view_of(e)).push(
                                row_view_of(rs[j as int]),
                            ));
                        },
                        None => {},
                    }
                }
                assert(outcome.entry_ids@.take(outcome.entry_ids@.len() as int) == outcome.entry_ids@);
                self.set_rows(rows);
                self.state.no_result_reason = outcome.no_result_reason;
                self.state.failure = None;
            },
            Err(()) => {
                self.state.rows = Vec::new();
                self.state.selected = None;
                self.state.no_result_reason = Some(NoResultReason::NoMatch);
                self.state.failure = Some(SearchFailure::Search);
            },
        }
        Vec::new()
    }

    fn find_first(rs: &Vec<ResolvedEntry>, id: FolderId) -> (r: Option<usize>)
        ensures
            r matches Some(i) ==> first_with_id(rs@, id) == Some(i as int) && i < rs@.len(),
            r is None ==> first_with_id(rs@, id) is None,
    {
        let mut i: usize = 0;
        assert(rs@.skip(0) == rs@);
        while i < rs.len()
            invariant
                i <= rs@.len(),
                first_with_id(rs@, id) == match first_with_id(rs@.skip(i as int), id) {
                    Some(j) => Some(j + i),
                    None => None,
                },
            decreases rs@.len() - i,
        {
            assert(rs@.skip(i as int).drop_first() == rs@.skip(i + 1));
            if rs[i].searchable.id == id {
                return Some(i);
            }
            i = i + 1;
        }
        None
    }

    fn open_selected(&mut self) -> (effects: Vec<ExternalEffect>)
        ensures
            (final(self).shown(), effects@) == open_step(old(self).shown()),
            final(self).active_generation() == old(self).active_generation(),
            final(self).search_settings() == old(self).search_settings(),
            final(self).entries() == old(self).entries(),
            final(self).runner_of() == old(self).runner_of(),
    {
        let can = self.state.can_open_selected() && !self.state.overlay_open;
        if !can {
            return Vec::new();
        }
        self.effects.emit(ExternalEffect::OpenEntry);
        let mut effects: Vec<ExternalEffect> = Vec::new();
        effects.push(ExternalEffect::OpenEntry);
        effects
    }

    fn select_move_with_ime(&mut self, movement: SelectionMove) -> (effects: Vec<ExternalEffect>)
        ensures
            (final(self).shown(), effects@) == move_step(old(self).shown(), movement),
            final(self).active_generation() == old(self).active_generation(),
            final(self).search_settings() == old(self).search_settings(),
            final(self).entries() == old(self).entries(),
            final(self).runner_of() == old(self).runner_of(),
    {
        if !self.state.ime_composition_active {
            let row_count = self.state.rows.len();
            self.state.selected = movement.apply(self.state.selected, row_count);
        }
        Vec::new()
    }

    fn search_key(&mut self, key: SearchKey) -> (effects: Vec<ExternalEffect>)
        ensures
            (final(self).shown(), effects@) == local_step(old(self).shown(), ViewCommand::SearchKey(key)),
            final(self).active_generation() == old(self).active_generation(),
            final(self).search_settings() == old(self).search_settings(),
            final(self).entries() == old(self).entries(),
            final(self).runner_of() == old(self).runner_of(),
    {
        match key {
            SearchKey::Enter => {
                if !self.state.ime_composition_active {
                    self.open_selected()
                } else {
                    Vec::new()
                }
            },
            SearchKey::UpDown(movement) => self.select_move_with_ime(movement),
            SearchKey::Escape => {
                if self.state.overlay_open {
                    self.state.overlay_open = false;
                    Vec::new()
                } else {
                    self.effects.emit(ExternalEffect::HideWindow);
                    let mut effects: Vec<ExternalEffect> = Vec::new();
                    effects.push(ExternalEffect::HideWindow);
                    effects
                }
            },
            SearchKey::ToggleHints => {
                self.state.keyboard_hint_visible = !self.state.keyboard_hint_visible;
                Vec::new()
            },
            SearchKey::Other => Vec::new(),
        }
    }

    fn select_index(&mut self, index: usize) -> (effects: Vec<ExternalEffect>)
        ensures
            (final(self).shown(), effects@) == local_step(old(self).shown(), ViewCommand::SelectIndex(index)),
            final(self).active_generation() == old(self).active_generation(),
            final(self).search_settings() == old(self).search_settings(),
            final(self).entries() == old(self).entries(),
            final(self).runner_of() == old(self).runner_of(),
    {
        if !self.state.ime_composition_active && index < self.state.rows.len() {
            self.state.selected = Some(index);
        }
        Vec::new()
    }

    fn row_index(rows: &Vec<ResultRow>, id: FolderId) -> (r: Option<usize>)
        ensures
            match row_with_id(rows@.map_values(|x: ResultRow| x@), id) {
                Some(j) => r == Some(j as usize) && 0 <= j < rows@.len(),
                None => r is None,
            },
    {
        let ghost views = rows@.map_values(|x: ResultRow| x@);
        let mut i: usize = 0;
        assert(views.skip(0) == views);
        while i < rows.len()
            invariant
                views == rows@.map_values(|x: ResultRow| x@),
                i <= rows@.len(),
                row_with_id(views, id) == match row_with_id(views.skip(i as int), id) {
                    Some(j) => Some(j + i),
                    None => None,
                },
            decreases rows@.len() - i,
        {
            assert(views.skip(i as int).drop_first() == views.skip(i + 1));
            assert(views.skip(i as int)[0] == rows@[i as int]@);
            if rows[i].entry_id == id {
                return Some(i);
            }
            i = i + 1;
        }
        None
    }

    fn select_id(&mut self, id: FolderId) -> (effects: Vec<ExternalEffect>)
        ensures
            (final(self).shown(), effects@) == local_step(old(self).shown(), ViewCommand::SelectId(id)),
            final(self).active_generation() == old(self).active_generation(),
            final(self).search_settings() == old(self).search_settings(),
            final(self).entries() == old(self).entries(),
            final(self).runner_of() == old(self).runner_of(),
    {
        if self.state.ime_composition_active {
            return Vec::new();
        }
        match Self::row_index(&self.state.rows, id) {
            Some(index) => {
                self.state.selected = Some(index);
            },
            None => {},
        }
        Vec::new()
    }

    fn row_action(&mut self, action: RowAction) -> (effects: Vec<ExternalEffect>)
        ensures
            (final(self).shown(), effects@) == local_step(old(self).shown(), ViewCommand::RowAction(action)),
            final(self).active_generation() == old(self).active_generation(),
            final(self).search_settings() == old(self).search_settings(),
            final(self).entries() == old(self).entries(),
            final(self).runner_of() == old(self).runner_of(),
    {
        match action {
            RowAction::Open => self.open_selected(),
            RowAction::ContextMenu => {
                self.state.overlay_open = true;
                Vec::new()
            },
            RowAction::CopyPath => {
                let selected_row = match self.state.selected {
                    Some(index) => index < self.state.rows.len(),
                    None => false,
                };
                if selected_row {
                    self.effects.emit(ExternalEffect::CopyPath);
                    let mut effects: Vec<ExternalEffect> = Vec::new();
                    effects.push(ExternalEffect::CopyPath);
                    effects
                } else {
                    Vec::new()
                }
            },
        }
    }

    fn hide_requested(&mut self) -> (effects: Vec<ExternalEffect>)
        ensures
            (final(self).shown(), effects@) == local_step(old(self).shown(), ViewCommand::HideRequested),
            final(self).active_generation() == old(self).active_generation(),
            final(self).search_settings() == old(self).search_settings(),
            final(self).entries() == old(self).entries(),
            final(self).runner_of() == old(self).runner_of(),
    {
        if self.state.overlay_open {
            return Vec::new();
        }
        self.effects.emit(ExternalEffect::HideWindow);
        let mut effects: Vec<ExternalEffect> = Vec::new();
        effects.push(ExternalEffect::HideWindow);
        effects
    }
}

} // verus!
