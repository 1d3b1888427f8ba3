//! Where the document and its sibling files live.

use std::path::Path;

use filego::presentation::manager::data_dir_from;

use filego::storage::location::{
    backup_document_path, backup_temp_document_path, backup_temp_file_name, corrupt_evidence_file_name,
    corrupt_evidence_path, is_save_temp_file, lock_file_path, main_document_path, temp_document_path,
    temp_file_name, DocumentPaths, BACKUP_FILE_NAME, LOCK_FILE_NAME, MAIN_FILE_NAME,
};

#[test]
fn sibling_file_names_follow_the_documented_shapes() {
    assert_eq!(temp_file_name("t1"), "data.json.tmp.t1");
    assert_eq!(backup_temp_file_name("t1"), "data.json.bak.tmp.t1");
    assert_eq!(corrupt_evidence_file_name("t1"), "data.json.corrupt-t1");
    assert_eq!(MAIN_FILE_NAME, "data.json");
    assert_eq!(BACKUP_FILE_NAME, "data.json.bak");
    assert_eq!(LOCK_FILE_NAME, "data.json.lock");
}

#[test]
fn paths_are_siblings_in_the_base_directory() {
    let base = Path::new("base-dir");
    assert_eq!(main_document_path(base), base.join("data.json"));
    assert_eq!(backup_document_path(base), base.join("data.json.bak"));
    assert_eq!(temp_document_path(base, "t1"), base.join("data.json.tmp.t1"));
    assert_eq!(backup_temp_document_path(base, "t1"), base.join("data.json.bak.tmp.t1"));
    assert_eq!(corrupt_evidence_path(base, "t1"), base.join("data.json.corrupt-t1"));
    assert_eq!(lock_file_path(base), base.join("data.json.lock"));
    for path in [main_document_path(base), temp_document_path(base, "x"), lock_file_path(base)] {
        assert_eq!(path.parent(), Some(base));
    }
}

#[test]
fn document_paths_agree_with_the_free_functions() {
    let base = Path::new("base-dir");
    let paths = DocumentPaths::from_base_dir(base);
    assert_eq!(paths.base_dir(), base);
    assert_eq!(paths.main(), main_document_path(base));
    assert_eq!(paths.backup(), backup_document_path(base));
    assert_eq!(paths.temp("t1"), temp_document_path(base, "t1"));
    assert_eq!(paths.backup_temp("t1"), backup_temp_document_path(base, "t1"));
    assert_eq!(paths.corrupt_evidence("t1"), corrupt_evidence_path(base, "t1"));
    assert_eq!(paths.lock(), lock_file_path(base));
    assert_eq!(paths, DocumentPaths::from_base_dir(Path::new("base-dir")));
}

#[test]
fn stale_temp_cleanup_takes_only_save_temps() {
    assert!(is_save_temp_file(&temp_file_name("abc")));
    assert!(is_save_temp_file("data.json.tmp."));
    assert!(!is_save_temp_file(&backup_temp_file_name("abc")));
    assert!(!is_save_temp_file(&corrupt_evidence_file_name("abc")));
    assert!(!is_save_temp_file("data.json"));
    assert!(!is_save_temp_file("data.json.bak"));
    assert!(!is_save_temp_file("data.json.lock"));
    assert!(!is_save_temp_file("data.json.tmp"));
    assert_ne!(temp_file_name("a"), temp_file_name("b"));
}

#[test]
fn data_dir_is_the_product_folder_below_a_known_root() {
    assert_eq!(data_dir_from(None), None);
    assert_eq!(data_dir_from(Some("")), None);
    assert_eq!(data_dir_from(Some(" \t ")), None);
    let root = r"C:\Users\me\AppData\Local";
    assert_eq!(data_dir_from(Some(root)), Some(Path::new(root).join("FileGo")));
}
