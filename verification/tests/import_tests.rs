//! Import planning and the all-or-nothing apply.

use filego::domain::{AppData, AppSettings, Category, CategoryId, FolderColor, FolderEntry, FolderId, Tag, TagId};
use filego::path_semantics::paths_match;
use filego::storage::codec::{check_document, schema_gate, StorageError, StorageErrorKind};
use filego::storage::import_export::{apply_import, plan_import, ImportError, ImportErrorKind, ImportMode};
use filego::storage::schema::StoredDocumentV1;

fn utc(value: &str) -> i64 {
    value.parse::<chrono::DateTime<chrono::Utc>>().expect("fixture parses").timestamp_millis()
}

fn folder(id: u128, name: &str, path: &str) -> FolderEntry {
    FolderEntry {
        id: FolderId::from_u128(id),
        display_name: name.to_owned(),
        aliases: Vec::new(),
        path: path.to_owned(),
        enabled: true,
        favorite: false,
        pinned: false,
        manual_weight: 0,
        category_id: None,
        tag_ids: Vec::new(),
        note: String::new(),
        color: None,
        sort_order: 0,
        created_at: utc("2026-09-21T00:00:00Z"),
        updated_at: utc("2026-09-21T00:00:00Z"),
        last_opened_at: None,
        open_count: 0,
    }
}

fn base_data() -> AppData {
    AppData {
        settings: AppSettings::default(),
        folders: vec![folder(1, "Docs", r"C:\docs")],
        categories: vec![Category {
            id: CategoryId::from_u128(100),
            name: "工作".into(),
            color: None,
        }],
        tags: vec![Tag {
            id: TagId::from_u128(200),
            name: "重要".into(),
        }],
        revision: 2,
    }
}

#[test]
fn overwrite_mode_updates_path_collisions_and_adds_new_records() {
    let current = base_data();
    let mut incoming_folders = Vec::new();
    let mut same = folder(1, "Docs Renamed", r"C:\docs");
    same.created_at = utc("2099-01-01T00:00:00Z");
    incoming_folders.push(same);
    incoming_folders.push(folder(9, "New", r"D:\new"));
    let incoming = AppData {
        folders: incoming_folders,
        ..base_data()
    };

    let plan = plan_import(&current, &incoming, ImportMode::Overwrite);
    assert_eq!(plan.updated, ["Docs Renamed"]);
    assert_eq!(plan.added, ["New"]);
    assert_eq!(plan.skipped_count(), 0);
    assert_eq!(plan.conflicts_count(), 0);

    let (applied, applied_plan) = apply_import(&current, &incoming, ImportMode::Overwrite).expect("apply");
    assert_eq!(applied_plan, plan);
    let docs = applied
        .data
        .folders
        .iter()
        .find(|f| f.id == FolderId::from_u128(1))
        .expect("docs kept under id 1");
    assert_eq!(docs.display_name, "Docs Renamed");
    assert_eq!(docs.created_at, utc("2026-09-21T00:00:00Z"));
    assert!(applied.data.folders.iter().any(|f| f.display_name == "New"));
    assert_eq!(applied.data.revision, 2);
}

#[test]
fn overwrite_where_id_match_duplicates_another_records_path_is_refused() {
    let mut current = base_data();
    current.folders.push(folder(2, "Work", r"D:\work"));
    let mut incoming = folder(1, "Docs But Work Path", r"D:\work");
    incoming.created_at = utc("2099-01-01T00:00:00Z");
    let incoming_data = AppData {
        folders: vec![incoming],
        ..base_data()
    };

    let plan = plan_import(&current, &incoming_data, ImportMode::Overwrite);
    assert_eq!(plan.conflicts, ["Docs But Work Path"]);
    assert_eq!(plan.updated_count(), 0);

    let result = apply_import(&current, &incoming_data, ImportMode::Overwrite);
    assert_eq!(
        result.unwrap_err().kind,
        ImportErrorKind::DuplicatePath,
        "ambiguous path-id overwrite must be refused"
    );
    assert_eq!(current.folders.len(), 2, "current untouched");
}

#[test]
fn non_colliding_overwrite_still_applies() {
    let current = base_data();
    let mut same = folder(1, "Docs Renamed", r"C:\docs");
    same.created_at = utc("2099-01-01T00:00:00Z");
    let incoming = AppData {
        folders: vec![same, folder(9, "New", r"D:\new")],
        ..base_data()
    };
    let plan = plan_import(&current, &incoming, ImportMode::Overwrite);
    assert_eq!(plan.updated, ["Docs Renamed"]);
    assert_eq!(plan.added, ["New"]);
    assert_eq!(plan.conflicts_count(), 0);

    let (applied, _) = apply_import(&current, &incoming, ImportMode::Overwrite).expect("apply");
    let docs = applied
        .data
        .folders
        .iter()
        .find(|f| f.id == FolderId::from_u128(1))
        .expect("docs under id 1");
    assert_eq!(docs.display_name, "Docs Renamed");
    assert_eq!(applied.data.folders.len(), 2);
    assert_eq!(
        applied
            .data
            .folders
            .iter()
            .filter(|f| paths_match(&f.path, r"C:\docs"))
            .count(),
        1
    );
}

#[test]
fn merge_mode_skips_present_paths_and_adds_missing() {
    let current = base_data();
    let incoming = AppData {
        folders: vec![folder(1, "Docs Import", r"C:\docs"), folder(9, "New", r"D:\new")],
        ..base_data()
    };
    let plan = plan_import(&current, &incoming, ImportMode::Merge);
    assert_eq!(plan.skipped, ["Docs Import"]);
    assert_eq!(plan.added, ["New"]);

    let (applied, _) = apply_import(&current, &incoming, ImportMode::Merge).expect("apply");
    let docs = applied
        .data
        .folders
        .iter()
        .find(|f| f.id == FolderId::from_u128(1))
        .expect("docs present");
    assert_eq!(docs.display_name, "Docs");
    assert_eq!(applied.data.folders.len(), 2);
}

#[test]
fn skip_duplicates_dedupes_within_the_file() {
    let current = base_data();
    let incoming = AppData {
        folders: vec![
            folder(1, "A", r"C:\docs"),
            folder(13, "B", r"D:\x"),
            folder(14, "C", r"D:\y"),
            folder(15, "D", r"D:\x"),
            folder(16, "E", r"D:\z"),
        ],
        ..base_data()
    };
    let plan = plan_import(&current, &incoming, ImportMode::SkipDuplicates);
    assert_eq!(plan.skipped.len(), 2, "present path + in-file dup");
    assert_eq!(plan.added, ["B", "C", "E"]);
    let (applied, _) = apply_import(&current, &incoming, ImportMode::SkipDuplicates).expect("apply");
    assert!(applied.data.folders.iter().any(|f| f.path == r"D:\x"));
    assert_eq!(
        applied.data.folders.iter().filter(|f| f.path == r"D:\x").count(),
        1,
        "in-file duplicate path added exactly once"
    );
}

#[test]
fn categories_and_tags_are_upserted_and_references_resolve() {
    let current = base_data();
    let category_id = CategoryId::from_u128(100);
    let tag_id = TagId::from_u128(201);
    let mut f = folder(30, "Referenced", r"E:\data");
    f.category_id = Some(category_id);
    f.tag_ids = vec![tag_id];
    let incoming = AppData {
        settings: current.settings,
        folders: vec![f],
        categories: vec![Category {
            id: category_id,
            name: "工作 (new)".into(),
            color: Some(FolderColor(0x1122_33FF)),
        }],
        tags: vec![Tag {
            id: tag_id,
            name: "新标签".into(),
        }],
        revision: 99,
    };
    let (applied, _) = apply_import(&current, &incoming, ImportMode::Merge).expect("apply");
    let cat = applied
        .data
        .categories
        .iter()
        .find(|c| c.id == category_id)
        .expect("category");
    assert_eq!(cat.name, "工作 (new)");
    assert!(applied.data.tags.iter().any(|t| t.id == tag_id));
    assert_eq!(applied.data.folders.len(), 2);
}

#[test]
fn conflict_rejected_when_union_cannot_validate() {
    let current = base_data();
    let mut folder_orphan = folder(40, "Orphan", r"F:\x");
    folder_orphan.category_id = Some(CategoryId::from_u128(777));
    let incoming = AppData {
        settings: current.settings,
        folders: vec![folder_orphan],
        categories: Vec::new(),
        tags: Vec::new(),
        revision: 1,
    };
    let result = apply_import(&current, &incoming, ImportMode::Merge);
    assert!(result.is_err(), "orphan reference must be rejected");
    assert_eq!(result.unwrap_err().kind, ImportErrorKind::UnresolvedReference);
    assert_eq!(current.folders.len(), 1);
}

#[test]
fn path_variants_collide_and_an_update_with_nothing_left_to_replace_is_refused() {
    let current = base_data();
    // Trailing separator, forward slashes and case name the same folder.
    let incoming = AppData {
        folders: vec![folder(9, "Docs again", "c:/DOCS/")],
        ..base_data()
    };
    let plan = plan_import(&current, &incoming, ImportMode::Merge);
    assert_eq!(plan.skipped, ["Docs again"]);
    // Record 1 moves away first; the second record then finds no record at
    // the old path to overwrite, so the whole import is refused.
    let incoming = AppData {
        folders: vec![folder(1, "Moved", r"E:\moved"), folder(9, "Old path", r"C:\docs")],
        ..base_data()
    };
    let plan = plan_import(&current, &incoming, ImportMode::Overwrite);
    assert_eq!(plan.updated, ["Moved", "Old path"]);
    assert_eq!(
        apply_import(&current, &incoming, ImportMode::Overwrite).unwrap_err().kind,
        ImportErrorKind::DuplicatePath
    );
}

/// The schema check every import parse starts with: the bytes must be JSON,
/// and their schema version passes the library's gate.
fn schema_check(bytes: &[u8]) -> Result<(), ImportError> {
    let value: serde_json::Value = serde_json::from_slice(bytes)
        .map_err(|_| ImportError::from(StorageError::new(StorageErrorKind::InvalidJson)))?;
    let version = value
        .get("schema_version")
        .and_then(|v| v.as_u64())
        .expect("fixture names a schema version");
    schema_gate(u32::try_from(version).expect("fixture version fits")).map_err(ImportError::from)
}

#[test]
fn parse_rejects_garbage_future_and_older_schema_with_no_mutation() {
    // Not JSON.
    assert_eq!(schema_check(b"not json").unwrap_err().kind, ImportErrorKind::InvalidJson);
    // Future schema version.
    let future = r#"{"schema_version":99,"settings":{},"folders":[],"categories":[],"tags":[],"revision":1}"#;
    assert_eq!(schema_check(future.as_bytes()).unwrap_err().kind, ImportErrorKind::FutureSchema);
    // Older schema version.
    let older = r#"{"schema_version":0,"settings":{},"folders":[],"categories":[],"tags":[],"revision":1}"#;
    assert_eq!(schema_check(older.as_bytes()).unwrap_err().kind, ImportErrorKind::MigrationNeeded);
    // A structurally complete document failing validation: a folder whose
    // category reference is unknown -> InvalidDocument.
    let mut bad = folder(10, "A", r"C:\a");
    bad.category_id = Some(CategoryId::from_u128(0xff));
    let document = StoredDocumentV1::new(AppData {
        settings: AppSettings::default(),
        folders: vec![bad],
        categories: Vec::new(),
        tags: Vec::new(),
        revision: 1,
    });
    assert_eq!(
        ImportError::from(check_document(&document).unwrap_err()).kind,
        ImportErrorKind::InvalidDocument
    );
}

#[test]
fn check_document_accepts_a_sound_document_and_names_each_refusal() {
    assert!(check_document(&StoredDocumentV1::new(base_data())).is_ok());
    let mut old = StoredDocumentV1::new(base_data());
    old.schema_version = 0;
    let error = check_document(&old).unwrap_err();
    assert_eq!(error.kind(), StorageErrorKind::MigrationRequired);
    assert_eq!(error.schema_version(), Some(0));
    let mut wide = base_data();
    wide.settings.font_scale_percent = 151;
    assert_eq!(
        check_document(&StoredDocumentV1::new(wide)).unwrap_err().kind(),
        StorageErrorKind::InvalidDocument
    );
    let mut twice = base_data();
    twice.folders.push(folder(2, "Again", r"c:\DOCS\"));
    assert_eq!(
        check_document(&StoredDocumentV1::new(twice)).unwrap_err().kind(),
        StorageErrorKind::InvalidDocument
    );
}

#[test]
fn applied_import_keeps_current_records_and_brings_every_category_and_tag() {
    let current = base_data();
    let incoming = AppData {
        folders: vec![folder(1, "Docs", r"C:\docs"), folder(7, "Seven", r"E:\seven")],
        categories: vec![
            Category { id: CategoryId::from_u128(100), name: "Work".into(), color: None },
            Category { id: CategoryId::from_u128(101), name: "项目".into(), color: None },
        ],
        tags: vec![Tag { id: TagId::from_u128(201), name: "客户".into() }],
        ..base_data()
    };
    let (document, plan) = apply_import(&current, &incoming, ImportMode::Merge).expect("applies");
    assert_eq!(document.data.folders.len(), current.folders.len() + plan.added.len());
    assert_eq!(document.data.folders[0].id, current.folders[0].id);
    assert_eq!(document.data.categories.len(), 2);
    assert_eq!(document.data.categories[0].name, "Work");
    assert_eq!(document.data.categories[1].name, "项目");
    assert_eq!(document.data.tags.len(), 2);
    assert_eq!(document.data.tags[0].id, TagId::from_u128(200));
    assert_eq!(document.data.tags[1].id, TagId::from_u128(201));
}
