//! Search-window scenarios: query edits, selection, IME and overlay gates,
//! effects and stale-completion rejection.

use filego::domain::{AppSettings, FolderId};
use filego::presentation::commands::{RowAction, SearchKey, SearchOutcome, ViewCommand};
use filego::presentation::state::SelectionMove;
use filego::presentation::view_model::{
    default_runner, resolved_from_search, ExternalEffect, FilterState, NoopEffects, ResolvedEntry,
    RunnerResponse, SearchViewModel, ViewModelEffects,
};
use filego::search::{Accessibility, Origin, SearchEntry};

type Runner = fn(&[ResolvedEntry], &str, &FilterState, &AppSettings) -> RunnerResponse;

fn utc(value: &str) -> i64 {
    value
        .parse::<chrono::DateTime<chrono::Utc>>()
        .expect("fixed RFC3339 fixture must parse")
        .timestamp_millis()
}

fn entry(id: u128, name: &str, path: &str) -> SearchEntry {
    SearchEntry {
        id: FolderId::from_u128(id),
        display_name: name.to_owned(),
        aliases: Vec::new(),
        path: path.to_owned(),
        category_name: None,
        tag_names: Vec::new(),
        note: String::new(),
        pinned: false,
        favorite: false,
        manual_weight: 0,
        open_count: 0,
        last_opened_at: Some(utc("2026-09-21T00:00:00Z")),
        accessibility: Accessibility::Unknown,
        origin: Origin::Unknown,
    }
}

fn resolved(entries: Vec<SearchEntry>) -> Vec<ResolvedEntry> {
    resolved_from_search(&entries, |entry: &SearchEntry| {
        entry
            .path
            .rsplit(['\\', '/'])
            .next()
            .unwrap_or(&entry.path)
            .to_owned()
    })
}

fn deferred_runner(_: &[ResolvedEntry], _: &str, _: &FilterState, _: &AppSettings) -> RunnerResponse {
    RunnerResponse::Deferred
}

fn view_model() -> SearchViewModel<Runner, NoopEffects> {
    view_model_with_effects(NoopEffects)
}

fn view_model_with_effects<E: ViewModelEffects>(effects: E) -> SearchViewModel<Runner, E> {
    let settings = AppSettings::default();
    let entries = resolved(vec![
        entry(1, "Documents", r"C:\Users\me\Documents"),
        entry(2, "Photos", r"C:\Users\me\Pictures"),
    ]);
    SearchViewModel::new(settings, entries, default_runner as Runner, effects)
}

struct Recorder {
    buffer: std::rc::Rc<std::cell::RefCell<Vec<ExternalEffect>>>,
}

impl ViewModelEffects for Recorder {
    fn emit(&mut self, effect: ExternalEffect) {
        self.buffer.borrow_mut().push(effect);
    }
}

fn recording_effects(buffer: std::rc::Rc<std::cell::RefCell<Vec<ExternalEffect>>>) -> Recorder {
    Recorder { buffer }
}

fn last_effect(effects: Vec<ExternalEffect>, want: ExternalEffect) -> bool {
    effects.contains(&want)
}


#[test]
fn initial_state_shows_empty_query_strategy_rows() {
    let view_model = view_model();
    assert!(!view_model.state().rows.is_empty());
    assert_eq!(view_model.state().query, "");
    assert_eq!(view_model.state().busy, None);
    assert!(!view_model.state().stale);
}

#[test]
fn query_edited_updates_query_and_runs_search() {
    let mut view_model = view_model();
    let effects = view_model.handle(ViewCommand::QueryEdited("Doc".to_owned()));
    assert!(effects.is_empty());
    assert_eq!(view_model.state().query, "Doc");
    // default_runner ran synchronously, so busy is already cleared.
    assert_eq!(view_model.state().busy, None);
    assert!(!view_model.state().rows.is_empty());
    assert!(
        view_model
            .state()
            .rows
            .iter()
            .any(|row| row.display_name == "Documents")
    );
}

#[test]
fn clear_query_resets_selection_and_requests_clear_input() {
    let mut view_model = view_model();
    view_model.handle(ViewCommand::QueryEdited("Photos".to_owned()));
    view_model.handle(ViewCommand::SelectMove(SelectionMove::First));
    assert!(view_model.state().selected.is_some());
    let effects = view_model.handle(ViewCommand::ClearQuery);
    assert!(last_effect(effects, ExternalEffect::ClearInput));
    assert_eq!(view_model.state().query, "");
    assert_eq!(view_model.state().selected, None);
    assert!(
        !view_model.state().rows.is_empty(),
        "empty-query rows return"
    );
}

#[test]
fn clear_query_on_empty_query_does_nothing() {
    let mut view_model = view_model();
    assert_eq!(view_model.state().query, "");
    let effects = view_model.handle(ViewCommand::ClearQuery);
    assert!(effects.is_empty());
}

#[test]
fn selection_wraps_at_edges_and_is_legalized_on_results_change() {
    let mut view_model = view_model();
    view_model.handle(ViewCommand::SelectMove(SelectionMove::First));
    assert_eq!(view_model.state().selected, Some(0));
    view_model.handle(ViewCommand::SelectMove(SelectionMove::Up));
    assert_eq!(view_model.state().selected, Some(1), "wrap up to last");
    view_model.handle(ViewCommand::SelectMove(SelectionMove::Down));
    assert_eq!(view_model.state().selected, Some(0), "wrap down to first");

    view_model.handle(ViewCommand::QueryEdited("Photos".to_owned()));
    assert_eq!(view_model.state().rows.len(), 1);
    // Selection was reset by the query change; choose the only row.
    view_model.handle(ViewCommand::SelectMove(SelectionMove::First));
    assert_eq!(view_model.state().selected, Some(0));
}

#[test]
fn selection_index_is_clamped_after_rows_shrink() {
    let mut view_model = view_model();
    view_model.handle(ViewCommand::SelectMove(SelectionMove::Last));
    assert_eq!(view_model.state().selected, Some(1));
    // A query that yields one row must clamp the stale index to None.
    view_model.handle(ViewCommand::QueryEdited("Photos".to_owned()));
    assert_eq!(view_model.state().selected, None);
}

#[test]
fn select_by_id_resolves_against_current_rows() {
    let mut view_model = view_model();
    // "Photos" is entry id 2.
    view_model.handle(ViewCommand::QueryEdited("Photos".to_owned()));
    assert_eq!(view_model.state().rows.len(), 1);
    let photos_id = FolderId::from_u128(2);
    view_model.handle(ViewCommand::SelectId(photos_id));
    assert_eq!(view_model.state().selected, Some(0));

    // An id not in the current rows leaves the selection unchanged.
    view_model.handle(ViewCommand::SelectId(FolderId::from_u128(999)));
    assert_eq!(view_model.state().selected, Some(0));
}

#[test]
fn select_by_id_is_blocked_while_ime_composing() {
    let mut view_model = view_model();
    view_model.set_ime_composition(true);
    view_model.handle(ViewCommand::SelectId(FolderId::from_u128(1)));
    assert_eq!(view_model.state().selected, None);
}

#[test]
fn enter_opens_selected_and_is_a_noop_without_selection() {
    let buffer = std::rc::Rc::new(std::cell::RefCell::new(Vec::new()));
    let mut view_model = view_model_with_effects(recording_effects(buffer.clone()));
    view_model.handle(ViewCommand::SelectMove(SelectionMove::First));

    let opened = view_model.handle(ViewCommand::RowAction(RowAction::Open));
    assert!(last_effect(opened, ExternalEffect::OpenEntry));

    // Enter from the search box with no selection is a harmless no-op.
    let buffer = std::rc::Rc::new(std::cell::RefCell::new(Vec::new()));
    let mut fresh = view_model_with_effects(recording_effects(buffer.clone()));
    let opened = fresh.handle(ViewCommand::SearchKey(SearchKey::Enter));
    assert!(opened.is_empty());
}

#[test]
fn search_key_map_and_escape_paths() {
    let mut view_model = view_model();
    // Esc with overlay closed hides the window.
    let effects = view_model.handle(ViewCommand::SearchKey(SearchKey::Escape));
    assert!(last_effect(effects, ExternalEffect::HideWindow));

    // Esc with overlay open closes only the overlay.
    view_model.handle(ViewCommand::SetOverlay(true));
    let effects = view_model.handle(ViewCommand::SearchKey(SearchKey::Escape));
    assert!(effects.is_empty());
    assert!(!view_model.state().overlay_open);

    // Alt+H toggles the hint bar.
    let before = view_model.state().keyboard_hint_visible;
    view_model.handle(ViewCommand::SearchKey(SearchKey::ToggleHints));
    assert_ne!(view_model.state().keyboard_hint_visible, before);
}

#[test]
fn ime_gate_blocks_open_and_selection_until_composition_ends() {
    let mut view_model = view_model();
    view_model.handle(ViewCommand::SelectMove(SelectionMove::First));
    assert_eq!(view_model.state().selected, Some(0));

    view_model.set_ime_composition(true);
    let opened = view_model.handle(ViewCommand::SearchKey(SearchKey::Enter));
    assert!(opened.is_empty(), "Enter must not open while composing");
    view_model.handle(ViewCommand::SelectMove(SelectionMove::Down));
    assert_eq!(view_model.state().selected, Some(0), "Down must not move");

    // Composition ends: Enter opens, Down moves.
    view_model.set_ime_composition(false);
    let opened = view_model.handle(ViewCommand::SearchKey(SearchKey::Enter));
    assert!(last_effect(opened, ExternalEffect::OpenEntry));
    view_model.handle(ViewCommand::SelectMove(SelectionMove::Down));
    assert_eq!(view_model.state().selected, Some(1));
}

#[test]
fn ime_gate_still_allows_query_editing() {
    let mut view_model = view_model();
    view_model.set_ime_composition(true);
    view_model.handle(ViewCommand::QueryEdited("Doc".to_owned()));
    assert_eq!(view_model.state().query, "Doc");
    assert!(!view_model.state().rows.is_empty());
}

#[test]
fn hide_is_deferred_while_an_overlay_is_open() {
    let mut view_model = view_model();
    view_model.handle(ViewCommand::SetOverlay(true));
    let effects = view_model.handle(ViewCommand::HideRequested);
    assert!(effects.is_empty(), "overlay open -> hide deferred");

    view_model.handle(ViewCommand::SetOverlay(false));
    let effects = view_model.handle(ViewCommand::HideRequested);
    assert!(last_effect(effects, ExternalEffect::HideWindow));
}

#[test]
fn open_does_not_work_while_overlay_open() {
    // Inside a popup (context menu), Enter must not open a row.
    let buffer = std::rc::Rc::new(std::cell::RefCell::new(Vec::new()));
    let mut view_model = view_model_with_effects(recording_effects(buffer.clone()));
    view_model.handle(ViewCommand::SelectMove(SelectionMove::First));
    view_model.handle(ViewCommand::RowAction(RowAction::ContextMenu));
    assert!(view_model.state().overlay_open);
    let opened = view_model.handle(ViewCommand::SearchKey(SearchKey::Enter));
    assert!(opened.is_empty());
}

#[test]
fn copy_path_emits_effect_only_with_a_selected_row() {
    let mut view_model = view_model();
    let effects = view_model.handle(ViewCommand::RowAction(RowAction::CopyPath));
    assert!(effects.is_empty());

    view_model.handle(ViewCommand::SelectMove(SelectionMove::First));
    let effects = view_model.handle(ViewCommand::RowAction(RowAction::CopyPath));
    assert!(last_effect(effects, ExternalEffect::CopyPath));
}

#[test]
fn filter_toggle_marks_dirty_and_opens_the_overlay_gate() {
    let mut view_model = view_model();
    assert!(!view_model.state().filter_dirty);
    view_model.handle(ViewCommand::ToggleFilters);
    assert!(view_model.state().filter_dirty);
    assert!(view_model.state().overlay_open);
}

#[test]
fn generation_rejects_stale_completions() {
    // Simulate the async flow with a controllable runner: first edit bumps
    // the generation; a completion for that generation clears busy; a later
    // edit bumps again and a completion for the *previous* generation is
    // dropped (the flag stays stale).
    let mut view_model = view_model();

    view_model.handle(ViewCommand::QueryEdited("Doc".to_owned()));
    let first_gen = view_model.generation();
    assert!(first_gen > 0);

    // A stale completion (for a generation already superseded by another
    // edit) must not clear the busy flag.
    view_model.handle(ViewCommand::QueryEdited("Photos".to_owned()));
    let active = view_model.generation();
    assert_eq!(active, first_gen + 1);

    view_model.handle(ViewCommand::SearchCompleted {
        generation: first_gen,
        result: Ok(SearchOutcome::default()),
    });
    // The first generation is stale: this completion must be dropped, so
    // the newer query's state is untouched.
    assert!(!view_model.state().stale);
    assert_eq!(view_model.state().busy, None);
    assert_eq!(view_model.state().query, "Photos");
}

#[test]
fn stale_flag_shows_when_an_inflight_result_arrives_after_a_newer_query() {
    // Genuinely async path: a runner that defers. The first edit leaves
    // `busy` set. A second edit supersedes it. A late completion for the
    // first generation must NOT clear the newer, still-busy state.

    let settings = AppSettings::default();
    let entries = resolved(vec![
        entry(1, "Documents", r"C:\Users\me\Documents"),
        entry(2, "Photos", r"C:\Users\me\Pictures"),
    ]);
    let mut view_model = SearchViewModel::new(settings, entries, deferred_runner as Runner, NoopEffects);

    view_model.handle(ViewCommand::QueryEdited("A".to_owned()));
    let stale_gen = view_model.generation();
    assert_eq!(view_model.state().busy, Some(stale_gen));

    // Second edit supersedes the first before its result arrives.
    view_model.handle(ViewCommand::QueryEdited("AB".to_owned()));
    let active = view_model.generation();
    assert!(active > stale_gen);
    assert_eq!(view_model.state().busy, Some(active));
    assert!(!view_model.state().stale);

    // Late completion for the first generation:
    view_model.handle(ViewCommand::SearchCompleted {
        generation: stale_gen,
        result: Ok(SearchOutcome::default()),
    });
    assert!(view_model.state().stale, "older completion must set stale");
    assert_eq!(
        view_model.state().busy,
        Some(active),
        "newer query still busy"
    );

    // The fresh completion clears the state.
    view_model.handle(ViewCommand::SearchCompleted {
        generation: active,
        result: Ok(SearchOutcome {
            entry_ids: vec![FolderId::from_u128(1)],
            no_result_reason: None,
        }),
    });
    assert!(!view_model.state().stale);
    assert_eq!(view_model.state().busy, None);
    assert_eq!(view_model.state().rows.len(), 1);
}

#[test]
fn rows_carry_label_path_and_first_tag() {
    let mut tagged = entry(3, "Tagged", r"C:\Users\me\Tagged");
    tagged.tag_names = vec!["one".to_owned(), "two".to_owned()];
    tagged.accessibility = Accessibility::Inaccessible;
    let entries = resolved(vec![tagged]);
    let view_model = SearchViewModel::new(AppSettings::default(), entries, default_runner as Runner, NoopEffects);
    let row = &view_model.state().rows[0];
    assert_eq!(row.path_label, "Tagged");
    assert_eq!(row.full_path, r"C:\Users\me\Tagged");
    assert_eq!(row.tag_texts, vec!["one".to_owned()]);
    assert!(row.inaccessible);
}

#[test]
fn failed_completion_shows_the_search_failure() {
    let settings = AppSettings::default();
    let entries = resolved(vec![entry(1, "Documents", r"C:\Users\me\Documents")]);
    let mut view_model = SearchViewModel::new(settings, entries, deferred_runner as Runner, NoopEffects);
    view_model.handle(ViewCommand::QueryEdited("Doc".to_owned()));
    let active = view_model.generation();
    view_model.handle(ViewCommand::SearchCompleted {
        generation: active,
        result: Err(()),
    });
    assert!(view_model.state().rows.is_empty());
    assert_eq!(
        view_model.state().failure,
        Some(filego::presentation::state::SearchFailure::Search)
    );
    assert_eq!(
        view_model.state().no_result_reason,
        Some(filego::search::NoResultReason::NoMatch)
    );
}

#[test]
fn open_failure_banner_is_set_and_cleared() {
    let mut view_model = view_model();
    view_model.set_open_failure();
    assert_eq!(
        view_model.state().failure,
        Some(filego::presentation::state::SearchFailure::Open)
    );
    view_model.clear_failure();
    assert_eq!(view_model.state().failure, None);
}

#[test]
fn default_runner_maps_ranked_ids_back_to_entries() {
    let entries = resolved(vec![
        entry(1, "Documents", r"C:\Users\me\Documents"),
        entry(2, "Photos", r"C:\Users\me\Pictures"),
    ]);
    let response = default_runner(&entries, "photos", &FilterState::default(), &AppSettings::default());
    match response {
        RunnerResponse::Done(Ok((kept, reason))) => {
            assert_eq!(kept.len(), 1);
            assert_eq!(kept[0].searchable.id, FolderId::from_u128(2));
            assert_eq!(kept[0].path_label, "Pictures");
            assert_eq!(reason, None);
        }
        _ => panic!("the default runner answers synchronously"),
    }
}
