//! Management rule scenarios: name policy, favorites cap, one-level import,
//! merge targets and tag usage.

use filego::domain::{Category, CategoryId, FolderEntry, FolderId, Tag, TagId, MAX_TAG_NAME_LEN};
use filego::presentation::management::{
    build_folder, evaluate_candidate, preview_batch, AddItemStatus, suggested_display_name, CandidateVerdict, child_import_hover, child_import_offer, clamp_child_import, favorite_room, folder_rows, names_equal,
    normalize_name, resolve_merge_target_id, tag_usage, valid_named_value, ChildImportChoice,
    ChildImportOffer, FolderFilter, FolderSort, MAX_ONE_LEVEL_IMPORT, ONE_LEVEL_IMPORT_MAX_LITERAL,
};
use filego::presentation::manager::{
    batch_records, category_rows, check_category_rename, check_new_category, check_new_tag, check_tag_merge,
    check_tag_rename, clamp_draft_weight, draft_save_decision, edit_draft, folder_id_at, next_draft_color,
    relocate_preview, resolve_duplicate, save_draft, tag_rows, toggle_draft_tag, BatchItem, BatchStatus, DraftEdit,
    DraftOutcome, DraftSave, FolderDraft, Notice,
};
use filego::presentation::management::DuplicatePolicy;
use filego::domain::FolderColor;

fn utc(s: &str) -> i64 {
    s.parse::<chrono::DateTime<chrono::Utc>>().unwrap().timestamp_millis()
}

fn tid(n: u128) -> TagId {
    TagId::from_u128(n)
}

fn cid(n: u128) -> CategoryId {
    CategoryId::from_u128(n)
}

fn fid(n: u128) -> FolderId {
    FolderId::from_u128(n)
}

fn folder(id: u128, name: &str, path: &str) -> FolderEntry {
    let now = utc("2026-09-21T00:00:00Z");
    FolderEntry {
        id: fid(id),
        display_name: name.to_owned(),
        aliases: Vec::new(),
        path: path.to_owned(),
        enabled: true,
        favorite: false,
        pinned: false,
        manual_weight: 0,
        category_id: None,
        tag_ids: Vec::new(),
        note: String::new(),
        color: None,
        sort_order: 0,
        created_at: now,
        updated_at: now,
        last_opened_at: None,
        open_count: 0,
    }
}

#[test]
fn name_policy_is_ascii_fold_and_whitespace_trim_exact() {
    assert!(names_equal("Work", "work"));
    assert!(names_equal(" Work ", "work"));
    assert!(names_equal("客户A", "客户A"));
    // Display original is preserved (normalize only trims).
    assert_eq!(normalize_name("  Work  "), "Work");
    assert!(!names_equal("Work", "Works"));
    // Full-width / accented are NOT ASCII-folded.
    assert!(!names_equal("Ä", "ä"));
}

#[test]
fn favorite_cap_is_respected() {
    let folders: Vec<FolderEntry> = (1..=5u128)
        .map(|id| {
            let mut f = folder(id, "x", r"C:\x");
            f.favorite = true;
            f
        })
        .collect();
    // 5 are already favorites; adding id 6 pushes over the cap.
    assert_eq!(favorite_room(&folders, &[fid(6)]).0, 6);
    assert!(favorite_room(&folders, &[fid(6)]).1);
    // Toggling an existing favorite stays at 5.
    assert_eq!(favorite_room(&folders, &[fid(1)]).0, 5);
    assert!(!favorite_room(&folders, &[fid(1)]).1);
    // Unfavoriting one frees a slot: with 4 remaining favorites, one new
    // nominee fits; nominating both the unfavorited id and a new one pushes
    // over again.
    let unfavorited: Vec<FolderEntry> = folders
        .iter()
        .map(|f| {
            let mut f = f.clone();
            if f.id == fid(1) {
                f.favorite = false;
            }
            f
        })
        .collect();
    let (used, over) = favorite_room(&unfavorited, &[fid(6)]);
    assert_eq!(used, 5);
    assert!(!over);
    let (used, over) = favorite_room(&unfavorited, &[fid(1), fid(6)]);
    assert_eq!(used, 6);
    assert!(over);
}

#[test]
fn one_level_import_offer_defaults_off_and_clamps_at_100() {
    assert_eq!(child_import_offer(false, 5), ChildImportOffer::ParentOnly);
    assert_eq!(child_import_offer(true, 0), ChildImportOffer::ParentOnly);
    assert_eq!(
        child_import_offer(true, 5),
        ChildImportOffer::Choose { child_count: 5 }
    );
    assert_eq!(
        clamp_child_import(250, ChildImportChoice::DirectChildren),
        100
    );
    assert_eq!(clamp_child_import(3, ChildImportChoice::DirectChildren), 3);
    assert_eq!(clamp_child_import(250, ChildImportChoice::ParentOnly), 1);
    assert_eq!(ONE_LEVEL_IMPORT_MAX_LITERAL, "max 100");
    assert!(child_import_hover(100).contains("max 100"));
    assert_eq!(MAX_ONE_LEVEL_IMPORT, 100);
}

#[test]
fn tag_usage_counts_folders() {
    let mut a = folder(1, "a", r"C:\a");
    a.tag_ids = vec![tid(9), tid(8)];
    let mut b = folder(2, "b", r"C:\b");
    b.tag_ids = vec![tid(9)];
    let folders = vec![a, b, folder(3, "c", r"C:\c")];
    assert_eq!(tag_usage(&folders, tid(9)), 2);
    assert_eq!(tag_usage(&folders, tid(8)), 1);
    assert_eq!(tag_usage(&folders, tid(7)), 0);
}

#[test]
fn valid_named_value_checks_trim_and_limit() {
    assert!(valid_named_value("Work", MAX_TAG_NAME_LEN));
    assert!(!valid_named_value("   ", MAX_TAG_NAME_LEN));
    assert!(!valid_named_value("", MAX_TAG_NAME_LEN));
    assert!(!valid_named_value(
        "x".repeat(MAX_TAG_NAME_LEN + 1).as_str(),
        MAX_TAG_NAME_LEN
    ));
}

#[test]
fn valid_named_value_counts_chars_after_trimming() {
    assert!(valid_named_value("  客户资料  ", 4));
    assert!(!valid_named_value("x".repeat(5).as_str(), 4));
    assert!(valid_named_value("x".repeat(MAX_TAG_NAME_LEN).as_str(), MAX_TAG_NAME_LEN));
}

#[test]
fn merge_target_prefers_an_equally_named_other_tag() {
    let tags = vec![
        Tag { id: tid(1), name: "Work".to_owned() },
        Tag { id: tid(2), name: " work ".to_owned() },
        Tag { id: tid(3), name: "work".to_owned() },
    ];
    assert_eq!(resolve_merge_target_id(&tags, tid(1), "WORK"), tid(2));
    assert_eq!(resolve_merge_target_id(&tags, tid(2), "WORK"), tid(1));
    assert_eq!(resolve_merge_target_id(&tags, tid(5), "home"), tid(5));
}

#[test]
fn child_import_hover_formats_the_limit() {
    assert_eq!(child_import_hover(100), "max 100");
    assert_eq!(child_import_hover(0), "max 0");
}

#[test]
fn edit_draft_copies_the_record() {
    let mut entry = folder(5, "Name", r"C:\x");
    entry.aliases = vec!["alias".to_owned()];
    entry.tag_ids = vec![tid(2)];
    entry.pinned = true;
    entry.manual_weight = 10;
    let draft = FolderDraft::for_edit(&entry);
    assert_eq!(draft.id, Some(fid(5)));
    assert_eq!(draft.display_name, "Name");
    assert_eq!(draft.path, r"C:\x");
    assert_eq!(draft.aliases, vec!["alias".to_owned()]);
    assert_eq!(draft.tag_ids, vec![tid(2)]);
    assert!(draft.pinned);
    assert_eq!(draft.manual_weight, 10);
}

#[test]
fn management_rows_filter_and_sort() {
    let category_a = cid(1);
    let now = utc("2026-09-20T00:00:00Z");
    let mut docs = folder(1, "Zeta", r"C:\z");
    docs.category_id = Some(category_a);
    docs.pinned = true;
    let mut alpha_disabled = folder(2, "alpha", r"C:\a");
    alpha_disabled.enabled = false;
    let alpha_created = folder(3, "alpha2", r"C:\a2");
    let mut alpha_recent = folder(4, "alpha3", r"C:\a3");
    alpha_recent.last_opened_at = Some(now);

    let categories = vec![Category {
        id: category_a,
        name: "工作".to_owned(),
        color: None,
    }];
    let tags = vec![Tag {
        id: tid(9),
        name: "重要".to_owned(),
    }];

    let all = [
        docs.clone(),
        alpha_disabled.clone(),
        alpha_created,
        alpha_recent.clone(),
    ];

    // Name filter (case-insensitive).
    let rows = folder_rows(
        &all,
        &categories,
        &tags,
        &FolderFilter {
            name: "ALPHA".into(),
            ..Default::default()
        },
        FolderSort::Name,
    );
    assert_eq!(rows.len(), 3);

    // Status filter.
    let rows = folder_rows(
        &all,
        &categories,
        &tags,
        &FolderFilter {
            enabled: Some(false),
            ..Default::default()
        },
        FolderSort::Name,
    );
    assert_eq!(rows.len(), 1);
    assert_eq!(rows[0].display_name, "alpha");

    // Category filter + uncategorized sentinel.
    let rows = folder_rows(
        &all,
        &categories,
        &tags,
        &FolderFilter {
            category: Some(category_a),
            ..Default::default()
        },
        FolderSort::Name,
    );
    assert_eq!(rows.len(), 1);
    let rows = folder_rows(
        &all,
        &categories,
        &tags,
        &FolderFilter {
            category: Some(CategoryId::from_u128(0)),
            ..Default::default()
        },
        FolderSort::Name,
    );
    assert_eq!(rows.len(), 3);

    // Sort by name (ASCII-case-insensitive, then original).
    let rows = folder_rows(
        &all,
        &categories,
        &tags,
        &FolderFilter::default(),
        FolderSort::Name,
    );
    assert_eq!(rows[0].display_name, "alpha");
    assert_eq!(rows[rows.len() - 1].display_name, "Zeta");

    // Sort by recently-used: the only one with last_opened_at first.
    let rows = folder_rows(
        &all,
        &categories,
        &tags,
        &FolderFilter::default(),
        FolderSort::RecentlyUsed,
    );
    assert_eq!(rows[0].display_name, "alpha3");
}

#[test]
fn rows_resolve_category_and_tag_names_and_sort_stably() {
    let mut a = folder(1, "b", r"C:\b");
    a.category_id = Some(cid(7));
    a.tag_ids = vec![tid(2), tid(1)];
    a.created_at = 20;
    let mut b = folder(2, "B", r"C:\B");
    b.created_at = 10;
    let mut c = folder(3, "a", r"C:\a");
    c.created_at = 20;
    let categories = vec![Category { id: cid(7), name: "Work".to_owned(), color: None }];
    let tags = vec![
        Tag { id: tid(1), name: "one".to_owned() },
        Tag { id: tid(2), name: "two".to_owned() },
    ];
    let all = [a, b, c];
    let by_name = folder_rows(&all, &categories, &tags, &FolderFilter::default(), FolderSort::Name);
    let names: Vec<&str> = by_name.iter().map(|r| r.display_name.as_str()).collect();
    assert_eq!(names, ["a", "B", "b"]);
    let first_b = by_name.iter().find(|r| r.display_name == "b").unwrap();
    assert_eq!(first_b.category_name.as_deref(), Some("Work"));
    assert_eq!(first_b.tag_names, vec!["one".to_owned(), "two".to_owned()]);
    let by_added = folder_rows(&all, &categories, &tags, &FolderFilter::default(), FolderSort::AddedTime);
    let names: Vec<&str> = by_added.iter().map(|r| r.display_name.as_str()).collect();
    assert_eq!(names, ["B", "b", "a"]);
}

#[test]
fn row_ids_are_looked_up_by_list_position() {
    let folders = [folder(1, "Beta", r"C:\b"), folder(2, "Alpha", r"C:\a")];
    let rows = folder_rows(&folders, &[], &[], &FolderFilter::default(), FolderSort::Name);
    assert_eq!(folder_id_at(&rows, 0), Some(fid(2)));
    assert_eq!(folder_id_at(&rows, 1), Some(fid(1)));
    assert_eq!(folder_id_at(&rows, 2), None);
    assert_eq!(folder_id_at(&[], 0), None);
}

#[test]
fn build_folder_keeps_id_and_created_at_for_edits() {
    let created = utc("2026-09-01T00:00:00Z");
    let now = utc("2026-09-21T00:00:00Z");
    let entry = build_folder(
        fid(5),
        "Name".to_owned(),
        r"C:\x".to_owned(),
        vec![],
        None,
        vec![],
        String::new(),
        true,
        false,
        10,
        true,
        None,
        created,
        now,
    );
    assert_eq!(entry.id, fid(5));
    assert_eq!(entry.created_at, created);
    assert_eq!(entry.updated_at, now);
    assert!(entry.pinned);
}

#[test]
fn favorite_room_counts_each_record_once() {
    let folders = vec![folder(1, "a", r"C:\a"), folder(2, "b", r"C:\b")];
    // The same non-favorite nominated twice uses one slot.
    assert_eq!(favorite_room(&folders, &[fid(2), fid(2)]), (1, false));
    let mut favorite = folder(3, "c", r"C:\c");
    favorite.favorite = true;
    let folders = vec![favorite.clone(), folder(4, "d", r"C:\d")];
    assert_eq!(favorite_room(&folders, &[fid(3), fid(4), fid(4), fid(3)]), (2, false));
    assert_eq!(favorite_room(&[], &[]), (0, false));
}

#[test]
fn duplicate_policy_defaults_to_not_add_and_offers_edit() {
    let folders = vec![folder(1, "Docs", r"C:\a\b")];
    // Default: duplicate blocks the add.
    assert_eq!(
        evaluate_candidate(r"C:\a\b", &folders, None),
        CandidateVerdict::Duplicate {
            existing_name: "Docs".to_owned()
        }
    );
    // Edit-existing: excluding the edited record lets it save.
    assert_eq!(
        evaluate_candidate(r"C:\a\b", &folders, Some(fid(1))),
        CandidateVerdict::Accepted
    );
}

#[test]
fn inaccessible_but_classifiable_paths_are_valid() {
    // Offline ≠ invalid: an unreachable UNC still validates.
    let folders = Vec::new();
    assert_eq!(
        evaluate_candidate(r"\\nas\offline\共享 目录", &folders, None),
        CandidateVerdict::Accepted
    );
    assert_eq!(evaluate_candidate("", &folders, None), CandidateVerdict::InvalidPath);
    assert_eq!(evaluate_candidate("   ", &folders, None), CandidateVerdict::InvalidPath);
}

#[test]
fn suggested_name_derives_leaf() {
    assert_eq!(suggested_display_name(r"C:\Users\me\设计 资料"), "设计 资料");
    assert_eq!(suggested_display_name(r"C:\Users\me\Documents\"), "Documents");
}

#[test]
fn path_variants_are_duplicates_and_leaf_names_survive_odd_input() {
    let folders = vec![folder(1, "Documents", r"C:\Users\me\Documents")];
    for variant in [r"C:\Users\me\Documents\", r"c:\users\me\documents", "C:/Users/me/Documents/"] {
        assert_eq!(
            evaluate_candidate(variant, &folders, None),
            CandidateVerdict::Duplicate { existing_name: "Documents".to_owned() }
        );
    }
    assert_eq!(evaluate_candidate(r"C:\Users\me\document", &folders, None), CandidateVerdict::Accepted);
    assert_eq!(suggested_display_name("  docs  "), "docs");
    assert_eq!(suggested_display_name(r"\\"), r"\\");
}

#[test]
fn batch_preview_dedupes_within_batch_and_against_records_m01_2() {
    let existing = vec![folder(1, "Documents", r"C:\Users\me\Documents")];
    let candidates = vec![
        r"C:\Users\me\document".to_owned(),
        r"C:\Users\me\Documents\".to_owned(),
        r"C:\users\me\documents".to_owned(),
        r"D:\new\资料".to_owned(),
    ];
    let mut statuses = preview_batch(&candidates, &existing, &[]);
    assert!(matches!(statuses[0], AddItemStatus::Ready { .. }));
    assert!(matches!(statuses[1], AddItemStatus::Duplicate { .. }));
    assert!(matches!(statuses[2], AddItemStatus::Duplicate { .. }));
    assert!(matches!(statuses[3], AddItemStatus::Ready { ref resolved_name } if resolved_name == "资料"));
    assert_eq!(preview_batch(&candidates, &existing, &[]), statuses);
    let _ = &mut statuses;
}

#[test]
fn batch_preview_marks_repeats_and_blanks() {
    let candidates = vec![r"E:\x".to_owned(), "  ".to_owned(), "e:/X/".to_owned()];
    let statuses = preview_batch(&candidates, &[], &["Fallback".to_owned()]);
    assert_eq!(statuses[0], AddItemStatus::Ready { resolved_name: "x".to_owned() });
    assert_eq!(statuses[1], AddItemStatus::Invalid);
    assert_eq!(statuses[2], AddItemStatus::Duplicate { existing_name: "Fallback".to_owned() });
}

#[test]
fn add_draft_suggests_the_leaf_name_and_defaults() {
    let draft = FolderDraft::for_add(r"D:\new\资料\".to_owned());
    assert_eq!(draft.id, None);
    assert_eq!(draft.display_name, "资料");
    assert_eq!(draft.path, r"D:\new\资料\");
    assert!(draft.enabled && !draft.pinned && !draft.favorite);
    assert_eq!(draft.manual_weight, 0);
}

#[test]
fn relocate_expands_env_for_preview_only() {
    let env = vec![("USERPROFILE".to_owned(), "C:\\Users\\me".to_owned())];
    assert_eq!(
        relocate_preview(r"%USERPROFILE%\Documents", &env),
        r"C:\Users\me\Documents"
    );
    assert_eq!(relocate_preview(r"~\docs", &env), r"C:\Users\me\docs");
}

#[test]
fn relocate_preview_keeps_unknown_and_unclosed_references() {
    let env = vec![("USERPROFILE".to_owned(), "C:\\Users\\me".to_owned())];
    assert_eq!(relocate_preview(r"%NOPE%\x", &env), r"%NOPE%\x");
    assert_eq!(relocate_preview(r"50%\x", &env), r"50%\x");
    assert_eq!(relocate_preview(r"%userprofile%\y", &env), r"C:\Users\me\y");
    assert_eq!(relocate_preview(r"~user\x", &env), r"~user\x");
    assert_eq!(relocate_preview("~", &env), r"C:\Users\me");
    assert_eq!(relocate_preview(r"~\docs", &Vec::new()), r"~\docs");
    assert_eq!(relocate_preview(r"D:\plain", &env), r"D:\plain");
}

#[test]
fn batch_records_add_only_ready_items_with_their_ids() {
    let items = vec![
        BatchItem { path: r"C:\a".to_owned(), name: " A ".to_owned(), status: BatchStatus::Ready },
        BatchItem { path: r"C:\b".to_owned(), name: "B".to_owned(), status: BatchStatus::Duplicate },
        BatchItem { path: r"C:\c".to_owned(), name: "C".to_owned(), status: BatchStatus::Invalid },
        BatchItem { path: r"C:\d".to_owned(), name: "D".to_owned(), status: BatchStatus::Ready },
    ];
    let ids = vec![
        FolderId::from_u128(1),
        FolderId::from_u128(2),
        FolderId::from_u128(3),
        FolderId::from_u128(4),
    ];
    let records = batch_records(&items, &ids, 1_000);
    assert_eq!(records.len(), 2);
    assert_eq!(records[0].id, FolderId::from_u128(1));
    assert_eq!(records[0].display_name, "A");
    assert_eq!(records[0].path, r"C:\a");
    assert!(records[0].enabled && !records[0].pinned && !records[0].favorite);
    assert_eq!(records[0].created_at, 1_000);
    assert_eq!(records[0].updated_at, 1_000);
    assert_eq!(records[1].id, FolderId::from_u128(4));
    assert_eq!(records[1].display_name, "D");
    assert_eq!(records[1].open_count, 0);
    assert!(records[1].last_opened_at.is_none());
}

#[test]
fn draft_save_checks_path_then_name_then_duplicates() {
    let existing = vec![FolderEntry {
        display_name: "Docs".to_owned(),
        ..FolderDraft::for_add(r"C:\docs".to_owned()).into_entry_for_test(1)
    }];
    let mut draft = FolderDraft::for_add("   ".to_owned());
    assert_eq!(draft_save_decision(&draft, &existing), DraftSave::InvalidPath);
    draft.path = r"D:\new".to_owned();
    draft.display_name = "  ".to_owned();
    assert_eq!(draft_save_decision(&draft, &existing), DraftSave::InvalidName);
    draft.display_name = "New".to_owned();
    assert_eq!(draft_save_decision(&draft, &existing), DraftSave::Commit);
    draft.path = r"c:/DOCS/".to_owned();
    assert_eq!(draft_save_decision(&draft, &existing), DraftSave::DuplicateBlocked);
    draft.id = Some(FolderId::from_u128(1));
    assert_eq!(draft_save_decision(&draft, &existing), DraftSave::Commit, "editing the record itself");
}

#[test]
fn draft_weight_clamps_and_colour_cycles_through_the_palette() {
    assert_eq!(clamp_draft_weight(500), 100);
    assert_eq!(clamp_draft_weight(-500), -100);
    assert_eq!(clamp_draft_weight(7), 7);
    let mut color = None;
    let mut seen = Vec::new();
    for _ in 0..8 {
        color = next_draft_color(color);
        seen.push(color.map(|c: FolderColor| c.0));
    }
    assert_eq!(
        seen,
        vec![
            Some(0x2563_EBFF),
            Some(0x0EA5_69FF),
            Some(0xDC26_26FF),
            Some(0xEA58_0CFF),
            Some(0x7C3A_EDFF),
            Some(0x0891_B2FF),
            Some(0xBE18_5DFF),
            None,
        ]
    );
    assert_eq!(next_draft_color(Some(FolderColor(0x1234_5678))), Some(FolderColor(0x2563_EBFF)));
}

#[test]
fn draft_tags_tick_once_and_untick_every_occurrence() {
    let a = TagId::from_u128(1);
    let b = TagId::from_u128(2);
    assert_eq!(toggle_draft_tag(&vec![a], b, true), vec![a, b]);
    assert_eq!(toggle_draft_tag(&vec![a, b], b, true), vec![a, b]);
    assert_eq!(toggle_draft_tag(&vec![b, a, b], b, false), vec![a]);
    assert_eq!(toggle_draft_tag(&vec![a], b, false), vec![a]);
}

#[test]
fn category_and_tag_rows_count_their_records() {
    let work = CategoryId::from_u128(1);
    let other = CategoryId::from_u128(2);
    let tag = TagId::from_u128(9);
    let mut first = FolderDraft::for_add(r"C:\a".to_owned()).into_entry_for_test(1);
    first.category_id = Some(work);
    first.tag_ids = vec![tag];
    let mut second = FolderDraft::for_add(r"C:\b".to_owned()).into_entry_for_test(2);
    second.category_id = Some(work);
    let folders = vec![first, second];
    let categories = vec![
        Category { id: work, name: "工作".to_owned(), color: None },
        Category { id: other, name: "其他".to_owned(), color: Some(FolderColor(7)) },
    ];
    let rows = category_rows(&folders, &categories);
    assert_eq!(rows.len(), 2);
    assert_eq!((rows[0].id, rows[0].name.as_str(), rows[0].count), (work, "工作", 2));
    assert_eq!((rows[1].id, rows[1].color, rows[1].count), (other, Some(FolderColor(7)), 0));
    let tags = vec![Tag { id: tag, name: "重要".to_owned() }];
    let rows = tag_rows(&folders, &tags);
    assert_eq!(rows.len(), 1);
    assert_eq!((rows[0].id, rows[0].usage), (tag, 1));
}

trait IntoEntryForTest {
    fn into_entry_for_test(self, id: u128) -> FolderEntry;
}

impl IntoEntryForTest for FolderDraft {
    fn into_entry_for_test(self, id: u128) -> FolderEntry {
        FolderEntry {
            id: FolderId::from_u128(id),
            display_name: self.display_name,
            aliases: self.aliases,
            path: self.path,
            enabled: self.enabled,
            favorite: self.favorite,
            pinned: self.pinned,
            manual_weight: self.manual_weight,
            category_id: self.category_id,
            tag_ids: self.tag_ids,
            note: self.note,
            color: self.color,
            sort_order: 0,
            created_at: 0,
            updated_at: 0,
            last_opened_at: None,
            open_count: 0,
        }
    }
}

#[test]
fn draft_edits_change_one_field_and_a_new_path_renames() {
    let draft = FolderDraft::for_add(r"C:\work\Reports".to_owned());
    assert_eq!(draft.display_name, "Reports");
    let moved = edit_draft(draft.clone(), DraftEdit::Path(r"D:\archive\Old".to_owned()));
    assert_eq!(moved.path, r"D:\archive\Old");
    assert_eq!(moved.display_name, "Old");
    let named = edit_draft(moved, DraftEdit::Name("Mine".to_owned()));
    assert_eq!(named.display_name, "Mine");
    let pinned = edit_draft(named, DraftEdit::TogglePinned);
    assert!(pinned.pinned);
    let heavy = edit_draft(pinned, DraftEdit::Weight(1000));
    assert_eq!(heavy.manual_weight, 100);
    let tagged = edit_draft(heavy, DraftEdit::Tag(TagId::from_u128(3), true));
    assert_eq!(tagged.tag_ids, vec![TagId::from_u128(3)]);
    let coloured = edit_draft(tagged, DraftEdit::CycleColor);
    assert_eq!(coloured.color, Some(FolderColor(0x2563_EBFF)));
    assert_eq!(coloured.path, r"D:\archive\Old");
    assert!(coloured.pinned);
}

#[test]
fn saving_a_draft_commits_a_fresh_record_or_keeps_the_edited_ones_identity() {
    let mut existing = FolderDraft::for_add(r"C:\docs".to_owned()).into_entry_for_test(1);
    existing.created_at = 77;
    existing.open_count = 5;
    let folders = vec![existing];
    let add = FolderDraft { display_name: "  New  ".to_owned(), ..FolderDraft::for_add(r"E:\new".to_owned()) };
    match save_draft(&add, &folders, FolderId::from_u128(9), 1_000) {
        DraftOutcome::Commit(entry) => {
            assert_eq!(entry.id, FolderId::from_u128(9));
            assert_eq!(entry.display_name, "New");
            assert_eq!((entry.created_at, entry.updated_at), (1_000, 1_000));
        }
        other => panic!("expected a commit, got {:?}", other),
    }
    let edit = FolderDraft { display_name: "Docs 2".to_owned(), ..FolderDraft::for_edit(&folders[0]) };
    match save_draft(&edit, &folders, FolderId::from_u128(9), 2_000) {
        DraftOutcome::Commit(entry) => {
            assert_eq!(entry.id, FolderId::from_u128(1));
            assert_eq!(entry.created_at, 77);
            assert_eq!(entry.updated_at, 2_000);
            assert_eq!(entry.open_count, 0);
        }
        other => panic!("expected a commit, got {:?}", other),
    }
    let duplicate = FolderDraft::for_add(r"c:\DOCS\".to_owned());
    assert_eq!(
        save_draft(&duplicate, &folders, FolderId::from_u128(9), 1),
        DraftOutcome::Refused(Notice::DuplicateBlocked)
    );
    assert_eq!(
        save_draft(&FolderDraft::for_add(" ".to_owned()), &folders, FolderId::from_u128(9), 1),
        DraftOutcome::Refused(Notice::InvalidPath)
    );
}

#[test]
fn resolving_a_duplicate_follows_the_chosen_policy() {
    let folders = vec![FolderDraft::for_add(r"C:\docs".to_owned()).into_entry_for_test(1)];
    let duplicate = FolderDraft { display_name: "Docs copy".to_owned(), ..FolderDraft::for_add(r"C:\DOCS".to_owned()) };
    let fresh = FolderId::from_u128(2);
    assert_eq!(
        resolve_duplicate(&duplicate, &folders, DuplicatePolicy::Cancel, fresh, 5),
        DraftOutcome::Refused(Notice::DuplicateBlocked)
    );
    assert_eq!(
        resolve_duplicate(&duplicate, &folders, DuplicatePolicy::EditExisting, fresh, 5),
        DraftOutcome::EditExisting(FolderId::from_u128(1))
    );
    match resolve_duplicate(&duplicate, &folders, DuplicatePolicy::SaveAsDifferentName, fresh, 5) {
        DraftOutcome::Commit(entry) => {
            assert_eq!(entry.id, fresh);
            assert_eq!(entry.display_name, "Docs copy");
            assert_eq!(entry.path, r"C:\DOCS");
        }
        other => panic!("expected a commit, got {:?}", other),
    }
    let unnamed = FolderDraft { display_name: "   ".to_owned(), ..duplicate.clone() };
    assert_eq!(
        resolve_duplicate(&unnamed, &folders, DuplicatePolicy::SaveAsDifferentName, fresh, 5),
        DraftOutcome::Refused(Notice::InvalidName)
    );
    let elsewhere = FolderDraft::for_add(r"Z:\none".to_owned());
    assert_eq!(
        resolve_duplicate(&elsewhere, &folders, DuplicatePolicy::EditExisting, fresh, 5),
        DraftOutcome::Refused(Notice::NotFound)
    );
}

#[test]
fn category_names_are_trimmed_and_unique_exactly() {
    let cats = vec![
        Category { id: CategoryId::from_u128(1), name: "Work".to_owned(), color: None },
        Category { id: CategoryId::from_u128(2), name: "Home".to_owned(), color: None },
    ];
    assert_eq!(check_new_category("  Trips ", &cats), Ok("Trips".to_owned()));
    assert_eq!(check_new_category(" Work ", &cats), Err(Notice::InvalidName));
    assert_eq!(check_new_category("work", &cats), Ok("work".to_owned()), "exact names only");
    assert_eq!(check_new_category("   ", &cats), Err(Notice::InvalidName));
    assert_eq!(check_category_rename(CategoryId::from_u128(2), "Work", &cats), Err(Notice::InvalidName));
    assert_eq!(check_category_rename(CategoryId::from_u128(1), " Work ", &cats), Ok((0, "Work".to_owned())));
    assert_eq!(check_category_rename(CategoryId::from_u128(9), "X", &cats), Err(Notice::NotFound));
    assert_eq!(check_category_rename(CategoryId::from_u128(9), "", &cats), Err(Notice::InvalidName));
}

#[test]
fn tag_names_are_unique_ignoring_ascii_case_and_merges_need_another_tag() {
    let tags = vec![
        Tag { id: TagId::from_u128(1), name: "Urgent".to_owned() },
        Tag { id: TagId::from_u128(2), name: "客户".to_owned() },
    ];
    assert_eq!(check_new_tag(" urgent ", &tags), Err(Notice::InvalidName));
    assert_eq!(check_new_tag(" Later ", &tags), Ok("Later".to_owned()));
    assert_eq!(check_tag_rename(TagId::from_u128(1), "URGENT", &tags), Ok("URGENT".to_owned()));
    assert_eq!(check_tag_rename(TagId::from_u128(1), "客户", &tags), Err(Notice::InvalidName));
    assert_eq!(check_tag_merge(TagId::from_u128(1), "客户", &tags), Ok(TagId::from_u128(2)));
    assert_eq!(check_tag_merge(TagId::from_u128(1), "urgent", &tags), Err(Notice::InvalidName));
    assert_eq!(check_tag_merge(TagId::from_u128(1), "none", &tags), Err(Notice::InvalidName));
}
