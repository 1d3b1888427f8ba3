//! Where the stored document and its sibling files live.
//!
//! Paths are derived from a base directory that the caller supplies; nothing
//! here reads the environment or the filesystem. Every sibling file lives in
//! the directory of the main document, so the final rename of a save stays
//! on one volume.

use vstd::prelude::*;

use std::path::{Path, PathBuf};

use crate::text::{chars_of, push_str};

use super::backup::{has_prefix, starts_with};

verus! {

/// File name of the live document.
pub const MAIN_FILE_NAME: &'static str = "data.json";

/// File name of the previous-revision backup.
pub const BACKUP_FILE_NAME: &'static str = "data.json.bak";

/// Prefix of per-save temp files: `data.json.tmp.<token>`.
pub const TEMP_FILE_PREFIX: &'static str = "data.json.tmp.";

/// Prefix of backup staging files: `data.json.bak.tmp.<token>`. Cleanup of
/// stale save temps never takes these for main-save temps.
pub const BACKUP_TEMP_FILE_PREFIX: &'static str = "data.json.bak.tmp.";

/// Prefix of the files that keep a corrupt main document as evidence:
/// `data.json.corrupt-<token>`. They are never removed automatically.
pub const CORRUPT_EVIDENCE_PREFIX: &'static str = "data.json.corrupt-";

/// Name of the exclusive per-directory write lock.
pub const LOCK_FILE_NAME: &'static str = "data.json.lock";

/// std's borrowed path, carried through opaquely.
#[verifier::external_type_specification]
#[verifier::external_body]
pub struct ExPath(Path);

/// std's owned path, carried through opaquely.
#[verifier::external_type_specification]
#[verifier::external_body]
pub struct ExPathBuf(PathBuf);

/// The path `Path::join` makes by adjoining `name` to `base`.
pub uninterp spec fn joined_path(base: &Path, name: Seq<char>) -> PathBuf;

/// The path `Path::new` makes of `text`.
pub uninterp spec fn text_path(text: Seq<char>) -> &'static Path;

/// The owned copy `Path::to_path_buf` makes of `path`.
pub uninterp spec fn owned_copy(path: &Path) -> PathBuf;

/// The borrowed form `PathBuf::as_path` gives of `path`.
pub uninterp spec fn borrowed_form(path: PathBuf) -> &'static Path;

/// `Path::join`: the path `name` adjoined to `base`. Its result is named
/// (`joined_path`), not restated: how paths are adjoined is std's.
#[verifier::external_body]
pub(crate) fn join_name(base: &Path, name: &str) -> (r: PathBuf)
    ensures
        r == joined_path(base, name@),
{
    base.join(name)
}

/// `Path::new`: `text` borrowed as a path (named `text_path`).
#[verifier::external_body]
pub(crate) fn path_of(text: &str) -> (r: &Path)
    ensures
        r == text_path(text@),
{
    Path::new(text)
}

/// `Path::to_path_buf`: an owned copy of `path` (named `owned_copy`), whose
/// borrowed form is `path` again.
#[verifier::external_body]
fn owned_path(path: &Path) -> (r: PathBuf)
    ensures
        r == owned_copy(path),
        borrowed_form(r) == path,
{
    path.to_path_buf()
}

/// `PathBuf::as_path`: the borrowed form of `path` (named `borrowed_form`).
#[verifier::external_body]
fn borrowed_path(path: &PathBuf) -> (r: &Path)
    ensures
        r == borrowed_form(*path),
{
    path.as_path()
}

fn prefixed(prefix: &str, token: &str) -> (r: String)
    ensures
        r@ == prefix@ + token@,
{
    let mut r = String::new();
    push_str(&mut r, prefix);
    push_str(&mut r, token);
    r
}

/// The file name of a save's temp file: `data.json.tmp.<token>`.
pub fn temp_file_name(token: &str) -> (r: String)
    ensures
        r@ == TEMP_FILE_PREFIX@ + token@,
{
    prefixed(TEMP_FILE_PREFIX, token)
}

/// The file name of a backup staging file: `data.json.bak.tmp.<token>`.
pub fn backup_temp_file_name(token: &str) -> (r: String)
    ensures
        r@ == BACKUP_TEMP_FILE_PREFIX@ + token@,
{
    prefixed(BACKUP_TEMP_FILE_PREFIX, token)
}

/// The file name of a corrupt-main evidence file: `data.json.corrupt-<token>`.
pub fn corrupt_evidence_file_name(token: &str) -> (r: String)
    ensures
        r@ == CORRUPT_EVIDENCE_PREFIX@ + token@,
{
    prefixed(CORRUPT_EVIDENCE_PREFIX, token)
}

/// Whether a directory entry named `file_name` is a save's temp file, which
/// the cleanup after a save removes as stale.
pub fn is_save_temp_file(file_name: &str) -> (r: bool)
    ensures
        r == starts_with(file_name@, TEMP_FILE_PREFIX@),
{
    has_prefix(&chars_of(file_name), &chars_of(TEMP_FILE_PREFIX))
}

/// `base_dir/data.json`
pub fn main_document_path(base_dir: &Path) -> (r: PathBuf)
    ensures
        r == joined_path(base_dir, MAIN_FILE_NAME@),
{
    join_name(base_dir, MAIN_FILE_NAME)
}

/// `base_dir/data.json.bak`
pub fn backup_document_path(base_dir: &Path) -> (r: PathBuf)
    ensures
        r == joined_path(base_dir, BACKUP_FILE_NAME@),
{
    join_name(base_dir, BACKUP_FILE_NAME)
}

/// `base_dir/data.json.tmp.<token>`; a distinct token per save keeps
/// overlapping saves off each other's temp file.
pub fn temp_document_path(base_dir: &Path, token: &str) -> (r: PathBuf)
    ensures
        r == joined_path(base_dir, TEMP_FILE_PREFIX@ + token@),
{
    let name = temp_file_name(token);
    join_name(base_dir, name.as_str())
}

/// `base_dir/data.json.bak.tmp.<token>`: a new backup is written and synced
/// here before it replaces the live backup.
pub fn backup_temp_document_path(base_dir: &Path, token: &str) -> (r: PathBuf)
    ensures
        r == joined_path(base_dir, BACKUP_TEMP_FILE_PREFIX@ + token@),
{
    let name = backup_temp_file_name(token);
    join_name(base_dir, name.as_str())
}

/// `base_dir/data.json.corrupt-<token>`: keeps the corrupt main bytes before
/// a repair promotes the backup.
pub fn corrupt_evidence_path(base_dir: &Path, token: &str) -> (r: PathBuf)
    ensures
        r == joined_path(base_dir, CORRUPT_EVIDENCE_PREFIX@ + token@),
{
    let name = corrupt_evidence_file_name(token);
    join_name(base_dir, name.as_str())
}

/// `base_dir/data.json.lock`
pub fn lock_file_path(base_dir: &Path) -> (r: PathBuf)
    ensures
        r == joined_path(base_dir, LOCK_FILE_NAME@),
{
    join_name(base_dir, LOCK_FILE_NAME)
}

/// The persistence paths of one base directory.
#[derive(Debug, PartialEq, Eq)]
pub struct DocumentPaths {
    base_dir: PathBuf,
}

impl DocumentPaths {
    /// The base directory the paths are derived from.
    pub closed spec fn dir(self) -> &'static Path {
        borrowed_form(self.base_dir)
    }

    /// The paths of the base directory `base_dir`.
    pub fn from_base_dir(base_dir: &Path) -> (r: DocumentPaths)
        ensures
            r.dir() == base_dir,
    {
        DocumentPaths { base_dir: owned_path(base_dir) }
    }

    /// The base directory.
    pub fn base_dir(&self) -> (r: &Path)
        ensures
            r == self.dir(),
    {
        borrowed_path(&self.base_dir)
    }

    /// The main document: `main_document_path` of the base directory.
    pub fn main(&self) -> (r: PathBuf)
        ensures
            r == joined_path(self.dir(), MAIN_FILE_NAME@),
    {
        main_document_path(borrowed_path(&self.base_dir))
    }

    /// The backup: `backup_document_path` of the base directory.
    pub fn backup(&self) -> (r: PathBuf)
        ensures
            r == joined_path(self.dir(), BACKUP_FILE_NAME@),
    {
        backup_document_path(borrowed_path(&self.base_dir))
    }

    /// A save's temp file: `temp_document_path` of the base directory.
    pub fn temp(&self, token: &str) -> (r: PathBuf)
        ensures
            r == joined_path(self.dir(), TEMP_FILE_PREFIX@ + token@),
    {
        temp_document_path(borrowed_path(&self.base_dir), token)
    }

    /// A backup staging file: `backup_temp_document_path` of the base
    /// directory.
    pub fn backup_temp(&self, token: &str) -> (r: PathBuf)
        ensures
            r == joined_path(self.dir(), BACKUP_TEMP_FILE_PREFIX@ + token@),
    {
        backup_temp_document_path(borrowed_path(&self.base_dir), token)
    }

    /// A corrupt-main evidence file: `corrupt_evidence_path` of the base
    /// directory.
    pub fn corrupt_evidence(&self, token: &str) -> (r: PathBuf)
        ensures
            r == joined_path(self.dir(), CORRUPT_EVIDENCE_PREFIX@ + token@),
    {
        corrupt_evidence_path(borrowed_path(&self.base_dir), token)
    }

    /// The write lock: `lock_file_path` of the base directory.
    pub fn lock(&self) -> (r: PathBuf)
        ensures
            r == joined_path(self.dir(), LOCK_FILE_NAME@),
    {
        lock_file_path(borrowed_path(&self.base_dir))
    }
}

/// Law: the sibling files never collide: a save's temp file is named after its
/// token alone, so distinct tokens give distinct temps; no backup staging
/// file, corrupt-main evidence file, main, backup or lock file is taken for a
/// save's temp by the stale-temp cleanup; and the fixed names are pairwise
/// distinct and distinct from every tokened name.
pub proof fn lemma_sibling_files_are_distinct(t: Seq<char>, u: Seq<char>)
    ensures
        (TEMP_FILE_PREFIX@ + t == TEMP_FILE_PREFIX@ + u) <==> t == u,
        (BACKUP_TEMP_FILE_PREFIX@ + t == BACKUP_TEMP_FILE_PREFIX@ + u) <==> t == u,
        (CORRUPT_EVIDENCE_PREFIX@ + t == CORRUPT_EVIDENCE_PREFIX@ + u) <==> t == u,
        starts_with(TEMP_FILE_PREFIX@ + t, TEMP_FILE_PREFIX@),
        !starts_with(BACKUP_TEMP_FILE_PREFIX@ + u, TEMP_FILE_PREFIX@),
        !starts_with(CORRUPT_EVIDENCE_PREFIX@ + u, TEMP_FILE_PREFIX@),
        !starts_with(MAIN_FILE_NAME@, TEMP_FILE_PREFIX@),
        !starts_with(BACKUP_FILE_NAME@, TEMP_FILE_PREFIX@),
        !starts_with(LOCK_FILE_NAME@, TEMP_FILE_PREFIX@),
        BACKUP_TEMP_FILE_PREFIX@ + t != CORRUPT_EVIDENCE_PREFIX@ + u,
        BACKUP_TEMP_FILE_PREFIX@ + t != MAIN_FILE_NAME@,
        BACKUP_TEMP_FILE_PREFIX@ + t != BACKUP_FILE_NAME@,
        BACKUP_TEMP_FILE_PREFIX@ + t != LOCK_FILE_NAME@,
        CORRUPT_EVIDENCE_PREFIX@ + t != MAIN_FILE_NAME@,
        CORRUPT_EVIDENCE_PREFIX@ + t != BACKUP_FILE_NAME@,
        CORRUPT_EVIDENCE_PREFIX@ + t != LOCK_FILE_NAME@,
        MAIN_FILE_NAME@ != BACKUP_FILE_NAME@,
        MAIN_FILE_NAME@ != LOCK_FILE_NAME@,
        BACKUP_FILE_NAME@ != LOCK_FILE_NAME@,
{
    reveal_strlit("data.json");
    reveal_strlit("data.json.bak");
    reveal_strlit("data.json.tmp.");
    reveal_strlit("data.json.bak.tmp.");
    reveal_strlit("data.json.corrupt-");
    reveal_strlit("data.json.lock");
    let tp = TEMP_FILE_PREFIX@;
    let bp = BACKUP_TEMP_FILE_PREFIX@;
    let cp = CORRUPT_EVIDENCE_PREFIX@;
    if tp + t == tp + u {
        assert(t =~= (tp + t).skip(tp.len() as int));
        assert(u =~= (tp + u).skip(tp.len() as int));
    }
    if bp + t == bp + u {
        assert(t =~= (bp + t).skip(bp.len() as int));
        assert(u =~= (bp + u).skip(bp.len() as int));
    }
    if cp + t == cp + u {
        assert(t =~= (cp + t).skip(cp.len() as int));
        assert(u =~= (cp + u).skip(cp.len() as int));
    }
    assert((tp + t).take(tp.len() as int) =~= tp);
    assert((bp + u).take(tp.len() as int)[10] != tp[10]);
    assert((cp + u).take(tp.len() as int)[10] != tp[10]);
    assert(LOCK_FILE_NAME@.take(tp.len() as int)[10] != tp[10]);
    assert((bp + t)[10] != (cp + u)[10]);
    assert((bp + t).len() != MAIN_FILE_NAME@.len());
    assert((bp + t).len() != BACKUP_FILE_NAME@.len());
    assert((bp + t).len() != LOCK_FILE_NAME@.len());
    assert((cp + t).len() != MAIN_FILE_NAME@.len());
    assert((cp + t).len() != BACKUP_FILE_NAME@.len());
    assert((cp + t).len() != LOCK_FILE_NAME@.len());
    assert(BACKUP_FILE_NAME@[10] != LOCK_FILE_NAME@[10]);
}

} // verus!
