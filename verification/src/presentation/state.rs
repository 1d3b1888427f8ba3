//! Observable window state pieces: search failures and selection movement.

use vstd::prelude::*;

use crate::domain::FolderId;
use crate::search::NoResultReason;

use super::i18n::Locale;
use super::theme::{tokens_of, ResolvedColorScheme, ResolvedTheme};

verus! {

/// A rendered row of the result list.
#[derive(Debug, Clone, PartialEq, Eq)]
pub struct ResultRow {
    /// Entry id used to look up the open target.
    pub entry_id: FolderId,
    pub display_name: String,
    /// The relative path label (the folder's own name).
    pub path_label: String,
    /// The full path for the path tooltip and copy-path; never logged.
    pub full_path: String,
    pub category_name: Option<String>,
    /// Tag texts that fit the row.
    pub tag_texts: Vec<String>,
    /// Whether the path was reported inaccessible.
    pub inaccessible: bool,
}

/// What a result row shows.
#[verifier::ext_equal]
pub struct RowView {
    pub entry_id: FolderId,
    pub display_name: Seq<char>,
    pub path_label: Seq<char>,
    pub full_path: Seq<char>,
    pub category_name: Option<Seq<char>>,
    pub tag_texts: Seq<Seq<char>>,
    pub inaccessible: bool,
}

impl View for ResultRow {
    type V = RowView;

    open spec fn view(&self) -> RowView {
        RowView {
            entry_id: self.entry_id,
            display_name: self.display_name@,
            path_label: self.path_label@,
            full_path: self.full_path@,
            category_name: match self.category_name {
                Some(c) => Some(c@),
                None => None,
            },
            tag_texts: self.tag_texts@.map_values(|t: String| t@),
            inaccessible: self.inaccessible,
        }
    }
}

/// The full visible state of the search window, so an adapter can render a
/// frame from one snapshot.
#[derive(Debug, Clone, PartialEq, Eq)]
pub struct ViewState {
    pub query: String,
    pub rows: Vec<ResultRow>,
    pub selected: Option<usize>,
    /// The generation being computed; `None` when idle.
    pub busy: Option<u64>,
    /// A newer query superseded an in-flight one; its result is discarded.
    pub stale: bool,
    pub no_result_reason: Option<NoResultReason>,
    pub failure: Option<SearchFailure>,
    pub theme: ResolvedTheme,
    pub locale: Locale,
    /// The filter model was edited but the search not yet refreshed.
    pub filter_dirty: bool,
    /// A popup or panel is open; hiding on focus loss is suppressed.
    pub overlay_open: bool,
    /// An IME composition is active.
    pub ime_composition_active: bool,
    /// The keyboard-hint bar is shown.
    pub keyboard_hint_visible: bool,
}

/// What the search window shows.
#[verifier::ext_equal]
pub struct StateView {
    pub query: Seq<char>,
    pub rows: Seq<RowView>,
    pub selected: Option<usize>,
    pub busy: Option<u64>,
    pub stale: bool,
    pub no_result_reason: Option<NoResultReason>,
    pub failure: Option<SearchFailure>,
    pub theme: ResolvedTheme,
    pub locale: Locale,
    pub filter_dirty: bool,
    pub overlay_open: bool,
    pub ime_composition_active: bool,
    pub keyboard_hint_visible: bool,
}

impl View for ViewState {
    type V = StateView;

    open spec fn view(&self) -> StateView {
        StateView {
            query: self.query@,
            rows: self.rows@.map_values(|r: ResultRow| r@),
            selected: self.selected,
            busy: self.busy,
            stale: self.stale,
            no_result_reason: self.no_result_reason,
            failure: self.failure,
            theme: self.theme,
            locale: self.locale,
            filter_dirty: self.filter_dirty,
            overlay_open: self.overlay_open,
            ime_composition_active: self.ime_composition_active,
            keyboard_hint_visible: self.keyboard_hint_visible,
        }
    }
}

/// Whether Enter or Space may open the selection: a row is selected and no
/// IME composition is active.
pub open spec fn can_open(v: StateView) -> bool {
    (v.selected matches Some(i) && i < v.rows.len()) && !v.ime_composition_active
}

impl ViewState {
    /// Whether there are rows.
    pub fn has_rows(&self) -> (r: bool)
        ensures
            r == (self.rows@.len() > 0),
    {
        self.rows.len() > 0
    }

    /// Whether Enter or Space may open the selection (see [`can_open`]).
    pub fn can_open_selected(&self) -> (r: bool)
        ensures
            r == can_open(self@),
    {
        let in_rows = match self.selected {
            Some(index) => index < self.rows.len(),
            None => false,
        };
        in_rows && !self.ime_composition_active
    }
}

impl Default for ViewState {
    fn default() -> (r: ViewState)
        ensures
            r@.query.len() == 0,
            r@.rows.len() == 0,
            r.selected is None,
            r.busy is None,
            !r.stale,
            r.no_result_reason is None,
            r.failure is None,
            r.theme == tokens_of(ResolvedColorScheme::Light),
            r.locale == Locale::ZhCN,
            !r.filter_dirty,
            !r.overlay_open,
            !r.ime_composition_active,
            r.keyboard_hint_visible,
    {
        ViewState {
            query: String::new(),
            rows: Vec::new(),
            selected: None,
            busy: None,
            stale: false,
            no_result_reason: None,
            failure: None,
            theme: ResolvedTheme::light(),
            locale: Locale::ZhCN,
            filter_dirty: false,
            overlay_open: false,
            ime_composition_active: false,
            keyboard_hint_visible: true,
        }
    }
}

/// Search failure that is actionable but anonymous: it never carries a raw
/// system code or a full path.
#[derive(Debug, Clone, Copy, PartialEq, Eq, Structural)]
pub enum SearchFailure {
    /// A load failed (corrupt or unreadable data, recovery required, ...).
    Load,
    /// A save failed while persisting state.
    Save,
    /// The search itself cannot run against the given data.
    Search,
    /// The shell could not open the selected folder; the window stays up so
    /// retry and copy keep working on the selection.
    Open,
}

impl SearchFailure {
    /// Privacy-safe detail for a diagnostics stream.
    pub fn as_detail(&self) -> (r: &'static str)
        ensures
            r@ == match *self {
                SearchFailure::Load => "stored data could not be loaded; a corrupt file is preserved and recoverable"@,
                SearchFailure::Save => "state could not be saved; the previous stored copy was not overwritten"@,
                SearchFailure::Search => "the search could not be completed"@,
                SearchFailure::Open => "the folder could not be opened; the window stays up for retry or copy"@,
            },
    {
        match self {
            SearchFailure::Load => "stored data could not be loaded; a corrupt file is preserved and recoverable",
            SearchFailure::Save => "state could not be saved; the previous stored copy was not overwritten",
            SearchFailure::Search => "the search could not be completed",
            SearchFailure::Open => "the folder could not be opened; the window stays up for retry or copy",
        }
    }
}

/// A move of the selection highlight inside the current rows.
#[derive(Debug, Clone, Copy, PartialEq, Eq, Structural)]
pub enum SelectionMove {
    Up,
    Down,
    First,
    Last,
}

/// The selection after moving `m` from `current` over `n` rows: no rows give
/// no selection; a selection outside the rows counts as none; Up and Down
/// wrap at both edges (Up from none is the last row, Down from none the
/// first); First and Last jump to the edges.
pub open spec fn moved(m: SelectionMove, current: Option<usize>, n: usize) -> Option<usize> {
    if n == 0 {
        None
    } else {
        let cur = match current {
            Some(i) => if i < n { Some(i) } else { None },
            None => None,
        };
        Some(match m {
            SelectionMove::First => 0,
            SelectionMove::Last => (n - 1) as usize,
            SelectionMove::Up => match cur {
                Some(i) => if i == 0 { (n - 1) as usize } else { (i - 1) as usize },
                None => (n - 1) as usize,
            },
            SelectionMove::Down => match cur {
                Some(i) => if i + 1 == n { 0 } else { (i + 1) as usize },
                None => 0,
            },
        })
    }
}

impl SelectionMove {
    /// Applies the move to `current` over `row_count` rows (see [`moved`]).
    pub fn apply(self, current: Option<usize>, row_count: usize) -> (r: Option<usize>)
        ensures
            r == moved(self, current, row_count),
    {
        if row_count == 0 {
            return None;
        }
        let current = match current {
            Some(index) => if index < row_count {
                Some(index)
            } else {
                None
            },
            None => None,
        };
        Some(
            match (self, current) {
                (SelectionMove::First, _) => 0,
                (SelectionMove::Down, None) => 0,
                (SelectionMove::Last, _) => row_count - 1,
                (SelectionMove::Up, None) => row_count - 1,
                (SelectionMove::Up, Some(index)) => if index == 0 {
                    row_count - 1
                } else {
                    index - 1
                },
                (SelectionMove::Down, Some(index)) => if index + 1 == row_count {
                    0
                } else {
                    index + 1
                },
            },
        )
    }
}

/// Law: with rows present, every move selects a row.
pub proof fn lemma_move_stays_in_rows(m: SelectionMove, current: Option<usize>, n: usize)
    requires
        n > 0,
    ensures
        moved(m, current, n) matches Some(i) && i < n,
{
}

/// Law: Up and Down undo each other on a selected row.
pub proof fn lemma_up_down_inverse(i: usize, n: usize)
    requires
        i < n,
    ensures
        moved(SelectionMove::Down, moved(SelectionMove::Up, Some(i), n), n) == Some(i),
        moved(SelectionMove::Up, moved(SelectionMove::Down, Some(i), n), n) == Some(i),
{
}

} // verus!
