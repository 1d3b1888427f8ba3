//! Storage scenarios: error descriptions, the schema gate, import
//! vocabulary and backup names.

use filego::domain::{AppData, AppSettings, FolderEntry, FolderId};
use filego::storage::backup::{
    backup_file_name, backup_file_path, decode_error_kind, is_backup_file, is_import_snapshot_name, newest_first, stamp_candidate,
    BackupError,
};
use filego::storage::codec::{schema_gate, StorageError, StorageErrorKind};
use filego::storage::import_export::{ImportError, ImportErrorKind, ImportMode, ImportPlan, ItemStatus};
use filego::storage::repository::{
    check_revision, load_outcome, remove_folder_record, LoadOutcome, RepositoryError,
};
use filego::storage::repository::FileRead::{Decoded, Missing, Undecodable, Unreadable};
use filego::storage::schema::{StoredDocumentV1, CURRENT_SCHEMA_VERSION};

#[test]
fn repository_error_display_contains_no_stored_content() {
    let sensitive = "DO-NOT-LEAK-JSON-CONTENT";
    let display = RepositoryError::Io.message().to_string();
    assert!(!display.contains(sensitive));
    assert!(!display.contains("data.json") && !display.contains("BaseDir"));
    let display = RepositoryError::CorruptData.message().to_string();
    assert!(!display.contains(sensitive));
}

#[test]
fn schema_gate_refuses_future_and_older_versions() {
    let future = schema_gate(99).unwrap_err();
    assert_eq!(future.kind(), StorageErrorKind::UnsupportedFutureSchema);
    assert_eq!(future.schema_version(), Some(99));
    let older = schema_gate(0).unwrap_err();
    assert_eq!(older.kind(), StorageErrorKind::MigrationRequired);
    assert_eq!(older.schema_version(), Some(0));
    assert!(schema_gate(CURRENT_SCHEMA_VERSION).is_ok());
}

#[test]
fn storage_error_messages_name_only_the_schema_version() {
    assert_eq!(
        StorageError::with_schema_version(StorageErrorKind::UnsupportedFutureSchema, 99).message(),
        "stored data uses unsupported future schema version 99"
    );
    assert_eq!(
        StorageError::with_schema_version(StorageErrorKind::MigrationRequired, 0).message(),
        "stored data schema version 0 requires migration"
    );
    assert_eq!(
        StorageError::new(StorageErrorKind::InvalidJson).message(),
        "stored data is not valid JSON"
    );
    assert_eq!(
        StorageError::new(StorageErrorKind::MigrationRequired).message(),
        "stored data could not be processed"
    );
}

#[test]
fn storage_errors_map_onto_import_errors() {
    let cases = [
        (StorageErrorKind::InvalidJson, ImportErrorKind::InvalidJson),
        (StorageErrorKind::UnsupportedFutureSchema, ImportErrorKind::FutureSchema),
        (StorageErrorKind::MigrationRequired, ImportErrorKind::MigrationNeeded),
        (StorageErrorKind::InvalidDocument, ImportErrorKind::InvalidDocument),
        (StorageErrorKind::EncodeFailed, ImportErrorKind::InvalidDocument),
    ];
    for (storage, import) in cases {
        assert_eq!(ImportError::from(StorageError::new(storage)).kind, import);
    }
    assert_eq!(
        RepositoryError::from(StorageError::new(StorageErrorKind::InvalidJson)),
        RepositoryError::InvalidData
    );
}

#[test]
fn import_vocabulary() {
    assert!(ImportMode::Overwrite.overwrite_wins());
    assert!(!ImportMode::Merge.overwrite_wins());
    assert!(!ImportMode::SkipDuplicates.overwrite_wins());
    assert_eq!(ItemStatus::Added.label(), "added");
    assert_eq!(ItemStatus::Conflict.label(), "conflict");
    assert_eq!(
        ImportError::new(ImportErrorKind::DuplicatePath).message(),
        "the import would duplicate a folder path"
    );
    let plan = ImportPlan {
        added: vec!["a".to_owned(), "b".to_owned()],
        updated: vec!["c".to_owned()],
        skipped: Vec::new(),
        conflicts: vec!["d".to_owned()],
    };
    assert_eq!(plan.added_count(), 2);
    assert_eq!(plan.updated_count(), 1);
    assert_eq!(plan.skipped_count(), 0);
    assert_eq!(plan.conflicts_count(), 1);
    assert_eq!(plan.total(), 4);
    assert_eq!(ImportPlan::default().total(), 0);
}

#[test]
fn backup_names_have_the_fixed_shape() {
    assert_eq!(backup_file_name("20260921-103000"), "backup-20260921-103000.json");
    assert!(is_backup_file("backup-20260921-103000.json"));
    assert!(is_backup_file("backup-before-import-20260921-103000-2.json"));
    assert!(!is_backup_file("data.json"));
    assert!(!is_backup_file("backup-x.json.tmp"));
    assert!(!is_backup_file("mybackup-x.json"));
    assert_eq!(
        decode_error_kind(StorageError::new(StorageErrorKind::InvalidDocument)),
        StorageErrorKind::InvalidDocument
    );
    assert_eq!(BackupError::Invalid.message(), "the named backup is missing or not a valid document");
}

#[test]
fn new_documents_use_the_current_schema() {
    let data = AppData {
        settings: AppSettings::default(),
        folders: Vec::new(),
        categories: Vec::new(),
        tags: Vec::new(),
        revision: 3,
    };
    let document = StoredDocumentV1::new(data.clone());
    assert_eq!(document.schema_version, CURRENT_SCHEMA_VERSION);
    assert_eq!(document.data, data);
}

fn document(revision: u64) -> StoredDocumentV1 {
    StoredDocumentV1::new(AppData {
        settings: AppSettings::default(),
        folders: Vec::new(),
        categories: Vec::new(),
        tags: Vec::new(),
        revision,
    })
}

fn record(id: u128, name: &str) -> FolderEntry {
    FolderEntry {
        id: FolderId::from_u128(id),
        display_name: name.to_owned(),
        aliases: Vec::new(),
        path: format!("C:\\{name}"),
        enabled: true,
        favorite: false,
        pinned: false,
        manual_weight: 0,
        category_id: None,
        tag_ids: Vec::new(),
        note: String::new(),
        color: None,
        sort_order: 0,
        created_at: 0,
        updated_at: 0,
        last_opened_at: None,
        open_count: 0,
    }
}

#[test]
fn load_prefers_main_then_backup_then_reports_why() {
    assert_eq!(load_outcome(Decoded(document(1)), Decoded(document(2))), Ok(LoadOutcome::Found(document(1))));
    assert_eq!(load_outcome(Undecodable, Decoded(document(2))), Ok(LoadOutcome::Recovered(document(2))));
    assert_eq!(load_outcome(Missing, Decoded(document(2))), Ok(LoadOutcome::Recovered(document(2))));
    assert_eq!(load_outcome(Undecodable, Missing), Err(RepositoryError::CorruptData));
    assert_eq!(load_outcome(Undecodable, Undecodable), Err(RepositoryError::CorruptData));
    assert_eq!(load_outcome(Missing, Missing), Err(RepositoryError::NotFound));
    assert_eq!(load_outcome(Missing, Undecodable), Err(RepositoryError::NotFound));
}

#[test]
fn unreadable_files_are_io_and_never_taken_for_missing() {
    // An inaccessible main is Io even with a valid backup at hand.
    assert_eq!(load_outcome(Unreadable, Decoded(document(2))), Err(RepositoryError::Io));
    // An inaccessible backup behind a corrupt or missing main is Io too.
    assert_eq!(load_outcome(Undecodable, Unreadable), Err(RepositoryError::Io));
    assert_eq!(load_outcome(Missing, Unreadable), Err(RepositoryError::Io));
    assert_eq!(check_revision(&Unreadable, 2), Err(RepositoryError::Io));
}

#[test]
fn revision_guard_refuses_another_revision_and_a_corrupt_main() {
    assert_eq!(check_revision(&Decoded(document(4)), 4), Ok(()));
    assert_eq!(check_revision(&Missing, 4), Ok(()));
    assert_eq!(check_revision(&Decoded(document(5)), 4), Err(RepositoryError::ConcurrentModification));
    // A corrupt main is never matched against any revision.
    assert_eq!(check_revision(&Undecodable, 4), Err(RepositoryError::CorruptData));
    assert_eq!(RepositoryError::ConcurrentModification.message(), "stored data was changed concurrently and was not overwritten");
}

#[test]
fn removing_a_folder_record_keeps_the_others_in_order() {
    let mut folders = vec![record(1, "a"), record(2, "b"), record(3, "c")];
    assert!(remove_folder_record(&mut folders, FolderId::from_u128(2)));
    let ids: Vec<FolderId> = folders.iter().map(|f| f.id).collect();
    assert_eq!(ids, vec![FolderId::from_u128(1), FolderId::from_u128(3)]);
    assert!(!remove_folder_record(&mut folders, FolderId::from_u128(9)));
    assert_eq!(folders.len(), 2);
    assert_eq!(folders[0].display_name, "a");
    assert_eq!(folders[1].display_name, "c");
}

#[test]
fn same_second_stamps_get_numeric_suffixes() {
    assert_eq!(stamp_candidate("before-import-", "20260921-103000", 0), "before-import-20260921-103000");
    assert_eq!(stamp_candidate("before-import-", "20260921-103000", 1), "before-import-20260921-103000-2");
    assert_eq!(stamp_candidate("before-import-", "20260921-103000", 2), "before-import-20260921-103000-3");
    assert_eq!(stamp_candidate("", "20260921-103000", 9), "20260921-103000-10");
    let tried: Vec<String> = (0..50).map(|attempt| stamp_candidate("p-", "t", attempt)).collect();
    for (i, a) in tried.iter().enumerate() {
        for b in &tried[i + 1..] {
            assert_ne!(a, b);
        }
    }
}

#[test]
fn only_import_snapshots_may_be_removed() {
    assert!(is_import_snapshot_name(&backup_file_name("before-import-a")));
    assert!(is_import_snapshot_name("backup-before-import-20260921-103000-2.json"));
    assert!(!is_import_snapshot_name(&backup_file_name("manual-keep")));
    assert!(!is_import_snapshot_name(&backup_file_name("before-import")));
    assert!(!is_import_snapshot_name("data.json"));
    assert!(!is_import_snapshot_name("../backup-before-import-a.json"));
    assert!(!is_import_snapshot_name("backup-before-import-a.json.tmp"));
}

#[test]
fn backup_listing_is_newest_first_and_ignores_other_siblings() {
    let entries = vec![
        "backup-20260920-090000.json".to_owned(),
        "data.json".to_owned(),
        "backup-20260921-103000.json".to_owned(),
        "data.json.bak".to_owned(),
        "backup-before-import-20260921-103000.json".to_owned(),
        "notes.txt".to_owned(),
    ];
    assert_eq!(
        newest_first(entries.clone()),
        vec![
            "backup-before-import-20260921-103000.json",
            "backup-20260921-103000.json",
            "backup-20260920-090000.json",
        ]
    );
    let mut reversed = entries;
    reversed.reverse();
    assert_eq!(newest_first(reversed.clone()), newest_first(reversed.into_iter().rev().collect()));
    assert!(newest_first(vec!["data.json".to_owned()]).is_empty());
    assert!(newest_first(Vec::new()).is_empty());
}

#[test]
fn backup_files_sit_in_the_data_directory() {
    let base = std::path::Path::new("base-dir");
    assert_eq!(backup_file_path(base, "20260921-103000"), base.join("backup-20260921-103000.json"));
}
