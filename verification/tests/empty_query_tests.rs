//! Empty-query strategies and the filter-aware search entry point.

use filego::domain::{AppSettings, FolderId, MAX_FAVORITES};
use filego::search::filter::{Accessibility, FilterSet, Origin};
use filego::search::{
    empty_query, empty_query_indices, search_with_filter, EmptyQueryStrategy, HighlightOptions,
    NoResultReason, QueryParser, SearchDisplay, SearchEntry,
};

fn utc(value: &str) -> i64 {
    value
        .parse::<chrono::DateTime<chrono::Utc>>()
        .expect("fixed RFC3339 fixture must parse")
        .timestamp_millis()
}

fn entry(id: u128, favorite: bool, pinned: bool, open_count: u64) -> SearchEntry {
    SearchEntry {
        id: FolderId::from_u128(id),
        display_name: format!("entry-{id}"),
        aliases: Vec::new(),
        path: format!(r"C:\entry-{id}"),
        category_name: None,
        tag_names: Vec::new(),
        note: String::new(),
        pinned,
        favorite,
        manual_weight: 0,
        open_count,
        last_opened_at: Some(utc("2026-09-21T00:00:00Z")),
        accessibility: Accessibility::Unknown,
        origin: Origin::Unknown,
    }
}

fn ids(indices: &[usize], entries: &[SearchEntry]) -> Vec<u128> {
    indices
        .iter()
        .map(|&index| entries[index].id.as_u128())
        .collect()
}

#[test]
fn favorites_are_capped_at_five_and_remaining_entries_stay_listed() {
    // Invalid persisted data cannot contain seven favorites. The strategy
    // still enforces the quick-access cap defensively for hand-built input.
    let entries: Vec<SearchEntry> = (1..=8u128)
        .map(|id| entry(id, id <= 7, id == 8, (100 - id) as u64))
        .collect();
    let indices = empty_query_indices(&entries, EmptyQueryStrategy::FavoritesFirst);
    let shown = ids(&indices, &entries);

    let favorites_before_first_nonfavorite = indices
        .iter()
        .take_while(|&&index| entries[index].favorite)
        .count();
    assert_eq!(favorites_before_first_nonfavorite, MAX_FAVORITES);
    assert_eq!(shown, [1, 2, 3, 4, 5, 8]);
    assert_eq!(shown.len(), MAX_FAVORITES + 1);
}

#[test]
fn favorites_first_lists_pinned_not_favorite_after_favorites() {
    let favorite = entry(1, true, false, 0);
    let pinned = entry(2, false, true, 0);
    let plain = entry(3, false, false, 0);
    let entries = [favorite, pinned, plain];

    let indices = empty_query_indices(&entries, EmptyQueryStrategy::FavoritesFirst);
    assert_eq!(ids(&indices, &entries), vec![1, 2, 3]);
}

#[test]
fn all_pinned_only_and_blank_strategies_are_distinct() {
    let entries = [
        entry(1, false, true, 10),
        entry(2, true, false, 900),
        entry(3, false, false, 0),
    ];
    assert_eq!(
        ids(
            &empty_query_indices(&entries, EmptyQueryStrategy::All),
            &entries
        ),
        vec![1, 2, 3]
    );
    assert_eq!(
        ids(
            &empty_query_indices(&entries, EmptyQueryStrategy::PinnedOnly),
            &entries
        ),
        vec![1]
    );
    assert!(empty_query_indices(&entries, EmptyQueryStrategy::Blank).is_empty());
}

#[test]
fn empty_query_applies_filter_and_truncates_after_full_sort() {
    let settings = AppSettings {
        max_results: 2,
        empty_query_strategy: EmptyQueryStrategy::All,
        ..AppSettings::default()
    };
    let mut e1 = entry(1, false, false, 10);
    e1.origin = Origin::Local;
    let mut e2 = entry(2, false, false, 300);
    e2.origin = Origin::Local;
    let mut e3 = entry(3, false, false, 200);
    e3.origin = Origin::Local;
    let mut e4 = entry(4, false, false, 999);
    e4.origin = Origin::Network;
    let entries = [e1, e2, e3, e4];
    let filter = FilterSet {
        origin: Some(Origin::Local),
        ..FilterSet::default()
    };

    let result = empty_query(&entries, &filter, &settings);
    assert_eq!(
        ids(&result.indices, &entries),
        vec![2, 3],
        "filter full set, sort full set, then truncate"
    );
    assert_eq!(result.no_result_reason, None);
}

#[test]
fn no_result_reason_distinguishes_no_data_filtered_out_and_no_match() {
    let settings = AppSettings::default();
    let parser = QueryParser;
    let empty = parser.parse("");
    let unmatched = parser.parse("not-present");
    let filter = FilterSet::default();

    let no_data = search_with_filter(
        &[],
        &empty,
        &filter,
        &settings,
        &HighlightOptions::default(),
    );
    assert_eq!(no_data.no_result_reason, Some(NoResultReason::NoData));

    let entries = [entry(1, false, false, 0)];
    let filtered = FilterSet {
        pinned_only: true,
        ..FilterSet::default()
    };
    let filtered_out = search_with_filter(
        &entries,
        &empty,
        &filtered,
        &settings,
        &HighlightOptions::default(),
    );
    assert_eq!(
        filtered_out.no_result_reason,
        Some(NoResultReason::FilteredOut)
    );

    let no_match = search_with_filter(
        &entries,
        &unmatched,
        &filter,
        &settings,
        &HighlightOptions::default(),
    );
    assert_eq!(no_match.no_result_reason, Some(NoResultReason::NoMatch));
    assert!(matches!(no_match.display, SearchDisplay::Ranked(results) if results.is_empty()));
}

#[test]
fn blank_strategy_is_intentionally_blank_not_a_no_result_error() {
    let settings = AppSettings {
        empty_query_strategy: EmptyQueryStrategy::Blank,
        ..AppSettings::default()
    };
    let entries = [entry(1, false, false, 0)];
    let result = empty_query(&entries, &FilterSet::default(), &settings);
    assert!(result.indices.is_empty());
    assert_eq!(result.no_result_reason, None);
}

#[test]
fn favorites_first_orders_favorites_pinned_opened_then_the_rest() {
    let mut never_opened = entry(4, false, false, 50);
    never_opened.last_opened_at = None;
    let entries = [
        never_opened,
        entry(3, false, false, 10),
        entry(2, false, true, 0),
        entry(1, true, false, 0),
    ];
    let indices = empty_query_indices(&entries, EmptyQueryStrategy::FavoritesFirst);
    assert_eq!(ids(&indices, &entries), vec![1, 2, 3, 4]);
}

#[test]
fn pinned_only_without_pinned_entries_is_filtered_out() {
    let settings = AppSettings {
        empty_query_strategy: EmptyQueryStrategy::PinnedOnly,
        ..AppSettings::default()
    };
    let entries = [entry(1, false, false, 0), entry(2, true, false, 0)];
    let result = empty_query(&entries, &FilterSet::default(), &settings);
    assert!(result.indices.is_empty());
    assert_eq!(result.no_result_reason, Some(NoResultReason::FilteredOut));
}

#[test]
fn empty_query_orders_by_weight_then_pinned_then_open_count_then_id() {
    let mut heavy = entry(4, false, false, 0);
    heavy.manual_weight = 5;
    let entries = [
        entry(3, false, false, 7),
        entry(2, false, true, 0),
        heavy,
        entry(1, false, false, 7),
    ];
    let indices = empty_query_indices(&entries, EmptyQueryStrategy::All);
    assert_eq!(ids(&indices, &entries), vec![4, 2, 1, 3]);
}

#[test]
fn typed_query_ranks_only_kept_entries() {
    let settings = AppSettings::default();
    let query = QueryParser.parse("entry");
    let mut pinned = entry(2, false, true, 0);
    pinned.display_name = "entry-pinned".to_owned();
    let entries = [entry(1, false, false, 0), pinned];
    let filter = FilterSet {
        pinned_only: true,
        ..FilterSet::default()
    };
    let response = search_with_filter(&entries, &query, &filter, &settings, &HighlightOptions::default());
    assert_eq!(response.no_result_reason, None);
    match response.display {
        SearchDisplay::Ranked(results) => {
            assert_eq!(results.len(), 1);
            assert_eq!(results[0].entry_id.as_u128(), 2);
        }
        SearchDisplay::EmptyQuery(_) => panic!("a typed query must be ranked"),
    }
}
