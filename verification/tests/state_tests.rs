//! Selection movement and failure detail scenarios.

use filego::presentation::state::{SearchFailure, SelectionMove};

#[test]
fn selection_up_wraps_to_last_row() {
    assert_eq!(SelectionMove::Up.apply(None, 3), Some(2));
    assert_eq!(SelectionMove::Up.apply(Some(0), 3), Some(2));
    assert_eq!(SelectionMove::Up.apply(Some(1), 3), Some(0));
}

#[test]
fn selection_down_wraps_to_first_row() {
    assert_eq!(SelectionMove::Down.apply(None, 3), Some(0));
    assert_eq!(SelectionMove::Down.apply(Some(2), 3), Some(0));
    assert_eq!(SelectionMove::Down.apply(Some(0), 3), Some(1));
}

#[test]
fn selection_first_last_are_explicit() {
    assert_eq!(SelectionMove::First.apply(None, 3), Some(0));
    assert_eq!(SelectionMove::First.apply(Some(2), 3), Some(0));
    assert_eq!(SelectionMove::Last.apply(None, 3), Some(2));
    assert_eq!(SelectionMove::Last.apply(Some(0), 3), Some(2));
}

#[test]
fn selection_on_empty_rows_is_none() {
    assert_eq!(SelectionMove::Up.apply(None, 0), None);
    assert_eq!(SelectionMove::Down.apply(Some(0), 0), None);
}

#[test]
fn selection_clamps_to_current_row_count() {
    // A stale index larger than the current rows is treated as None and
    // then wrapped by the requested move.
    assert_eq!(SelectionMove::Up.apply(Some(9), 3), Some(2));
    assert_eq!(SelectionMove::Down.apply(Some(9), 3), Some(0));
}

#[test]
fn up_then_down_returns_to_the_same_row() {
    for row in 0..4 {
        let up = SelectionMove::Up.apply(Some(row), 4);
        assert_eq!(SelectionMove::Down.apply(up, 4), Some(row));
    }
}

#[test]
fn failure_details_are_anonymous() {
    assert_eq!(SearchFailure::Search.as_detail(), "the search could not be completed");
    for failure in [SearchFailure::Load, SearchFailure::Save, SearchFailure::Search, SearchFailure::Open] {
        assert!(!failure.as_detail().contains('\\'));
    }
}
