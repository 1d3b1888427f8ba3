//! The small, typed gestures the search window forwards to the logic layer.

use vstd::prelude::*;

use crate::domain::FolderId;
use crate::search::NoResultReason;

use super::state::SelectionMove;

verus! {

/// A search outcome delivered with [`ViewCommand::SearchCompleted`].
#[derive(Debug, Clone, PartialEq, Eq)]
pub struct SearchOutcome {
    /// Entry ids of the kept rows, in display order.
    pub entry_ids: Vec<FolderId>,
    /// Empty-state reason computed by the search core.
    pub no_result_reason: Option<NoResultReason>,
}

impl Default for SearchOutcome {
    fn default() -> (r: SearchOutcome)
        ensures
            r.entry_ids@.len() == 0,
            r.no_result_reason is None,
    {
        SearchOutcome { entry_ids: Vec::new(), no_result_reason: None }
    }
}

/// A key the user pressed while typing in the search box.
#[derive(Debug, Clone, Copy, PartialEq, Eq, Structural)]
pub enum SearchKey {
    /// Enter / Return.
    Enter,
    /// Up / Down (a shift only matters to the text box's own selection).
    UpDown(SelectionMove),
    /// Escape while typing.
    Escape,
    /// Alt+H: toggle the keyboard-hint bar.
    ToggleHints,
    /// Any other text or control key that keeps the built-in text behavior.
    Other,
}

/// A click or context-menu action anchored to a row.
#[derive(Debug, Clone, Copy, PartialEq, Eq, Structural)]
pub enum RowAction {
    /// Left click or Enter on the row: open the selected entry.
    Open,
    /// Right click: show the context menu for the row.
    ContextMenu,
    /// Copy the full path to the clipboard.
    CopyPath,
}

/// Every user gesture the search window understands.
#[derive(Debug, PartialEq, Eq)]
pub enum ViewCommand {
    /// The user typed into the search box; the raw current query.
    QueryEdited(String),
    /// A key was pressed while the search box had focus.
    SearchKey(SearchKey),
    /// The user clicked the clear button.
    ClearQuery,
    /// Move the selection.
    SelectMove(SelectionMove),
    /// Select an explicit row index (usually from a click).
    SelectIndex(usize),
    /// Select the row of the entry with this id.
    SelectId(FolderId),
    /// A row-level action (open, context menu, copy path).
    RowAction(RowAction),
    /// Mark the filter dirty and open the filter panel.
    ToggleFilters,
    /// Open or close the filter panel or context menu.
    SetOverlay(bool),
    /// The result of an asynchronous search, for the generation it ran
    /// under; a completion for a superseded generation is ignored.
    SearchCompleted { generation: u64, result: Result<SearchOutcome, ()> },
    /// Hide the window (Esc path); suppressed while an overlay is open.
    HideRequested,
    /// Quit the whole app.
    ExitRequested,
}

} // verus!
