//! Import planning: anonymous import errors, the resolution modes, the
//! classification of each imported record, the preview plan and the
//! all-or-nothing apply.
//!
//! An import is all-or-nothing: a file that fails to parse or validate
//! yields an error and nothing is changed. Real folders on disk are never
//! touched; every operation is record-level.

use vstd::prelude::*;

use crate::domain::{AppData, Category, CategoryId, FolderEntry, FolderId, Tag, TagId};
use crate::order::{first_index, lemma_first_index, lemma_first_index_found};
use crate::path_semantics::{paths_match, same_path};
use crate::search::search_entry::{copy_strings, same_strings};

use super::backup::names_of;
use super::codec::{StorageError, StorageErrorKind};
use super::schema::{StoredDocumentV1, CURRENT_SCHEMA_VERSION};

verus! {

/// Why an import file cannot be used (anonymous, never a path).
#[derive(Debug, Clone, Copy, PartialEq, Eq, Structural)]
pub enum ImportErrorKind {
    /// Not valid JSON.
    InvalidJson,
    /// A newer schema version this version refuses to guess about.
    FutureSchema,
    /// An older schema version that would need migration (unsupported).
    MigrationNeeded,
    /// The document fails structural or reference validation.
    InvalidDocument,
    /// The merged result could not be validated (reference conflict).
    UnresolvedReference,
    /// Applying would leave two records with the same path.
    DuplicatePath,
    /// The document could not be encoded (export).
    EncodeFailed,
}

/// An import or export error.
#[derive(Debug, Clone, Copy, PartialEq, Eq, Structural)]
pub struct ImportError {
    pub kind: ImportErrorKind,
}

/// The fixed description of an import error of `kind`.
pub open spec fn import_message(kind: ImportErrorKind) -> Seq<char> {
    match kind {
        ImportErrorKind::InvalidJson => "the file is not a valid FileGo document"@,
        ImportErrorKind::FutureSchema => "the file uses a newer format this version cannot import"@,
        ImportErrorKind::MigrationNeeded => "the file uses an older format that needs migration (unsupported)"@,
        ImportErrorKind::InvalidDocument => "the file does not form a valid FileGo document"@,
        ImportErrorKind::UnresolvedReference => "the import would leave unresolved references"@,
        ImportErrorKind::DuplicatePath => "the import would duplicate a folder path"@,
        ImportErrorKind::EncodeFailed => "the current data could not be encoded"@,
    }
}

/// The import error kind a storage error maps to.
pub open spec fn import_kind_of(kind: StorageErrorKind) -> ImportErrorKind {
    match kind {
        StorageErrorKind::InvalidJson => ImportErrorKind::InvalidJson,
        StorageErrorKind::UnsupportedFutureSchema => ImportErrorKind::FutureSchema,
        StorageErrorKind::MigrationRequired => ImportErrorKind::MigrationNeeded,
        StorageErrorKind::InvalidDocument => ImportErrorKind::InvalidDocument,
        StorageErrorKind::EncodeFailed => ImportErrorKind::InvalidDocument,
    }
}

impl ImportError {
    /// An error of `kind`.
    pub fn new(kind: ImportErrorKind) -> (r: ImportError)
        ensures
            r.kind == kind,
    {
        ImportError { kind }
    }

    /// The fixed, anonymous description of the error.
    pub fn message(&self) -> (r: &'static str)
        ensures
            r@ == import_message(self.kind),
    {
        match self.kind {
            ImportErrorKind::InvalidJson => "the file is not a valid FileGo document",
            ImportErrorKind::FutureSchema => "the file uses a newer format this version cannot import",
            ImportErrorKind::MigrationNeeded => "the file uses an older format that needs migration (unsupported)",
            ImportErrorKind::InvalidDocument => "the file does not form a valid FileGo document",
            ImportErrorKind::UnresolvedReference => "the import would leave unresolved references",
            ImportErrorKind::DuplicatePath => "the import would duplicate a folder path",
            ImportErrorKind::EncodeFailed => "the current data could not be encoded",
        }
    }
}

impl From<StorageError> for ImportError {
    fn from(error: StorageError) -> (r: ImportError) {
        let kind = match error.kind() {
            StorageErrorKind::InvalidJson => ImportErrorKind::InvalidJson,
            StorageErrorKind::UnsupportedFutureSchema => ImportErrorKind::FutureSchema,
            StorageErrorKind::MigrationRequired => ImportErrorKind::MigrationNeeded,
            StorageErrorKind::InvalidDocument => ImportErrorKind::InvalidDocument,
            StorageErrorKind::EncodeFailed => ImportErrorKind::InvalidDocument,
        };
        ImportError::new(kind)
    }
}

impl vstd::std_specs::convert::FromSpecImpl<StorageError> for ImportError {
    open spec fn obeys_from_spec() -> bool {
        true
    }

    open spec fn from_spec(v: StorageError) -> ImportError {
        ImportError { kind: import_kind_of(v.kind_of()) }
    }
}

/// Import resolution policy.
#[derive(Debug, Clone, Copy, PartialEq, Eq, Structural)]
pub enum ImportMode {
    /// The imported record wins on a path or id collision.
    Overwrite,
    /// Only records whose path is not present are added.
    Merge,
    /// Like `Merge`, and a path repeated within the file is added once.
    SkipDuplicates,
}

impl ImportMode {
    /// Whether a colliding path yields an update (import wins) rather than a
    /// skip.
    pub fn overwrite_wins(self) -> (r: bool)
        ensures
            r == (self == ImportMode::Overwrite),
    {
        match self {
            ImportMode::Overwrite => true,
            _ => false,
        }
    }
}

/// Per-record classification of an import.
#[derive(Debug, Clone, Copy, PartialEq, Eq, Structural)]
pub enum ItemStatus {
    Added,
    Updated,
    Skipped,
    Conflict,
}

impl ItemStatus {
    /// The status's lower-case label.
    pub fn label(self) -> (r: &'static str)
        ensures
            r@ == match self {
                ItemStatus::Added => "added"@,
                ItemStatus::Updated => "updated"@,
                ItemStatus::Skipped => "skipped"@,
                ItemStatus::Conflict => "conflict"@,
            },
    {
        match self {
            ItemStatus::Added => "added",
            ItemStatus::Updated => "updated",
            ItemStatus::Skipped => "skipped",
            ItemStatus::Conflict => "conflict",
        }
    }
}

/// The preview of an import: the display names in each bucket, in the
/// imported file's order.
#[derive(Debug, Clone, PartialEq, Eq)]
pub struct ImportPlan {
    pub added: Vec<String>,
    pub updated: Vec<String>,
    pub skipped: Vec<String>,
    pub conflicts: Vec<String>,
}

impl Default for ImportPlan {
    fn default() -> (r: ImportPlan)
        ensures
            r.added@.len() == 0,
            r.updated@.len() == 0,
            r.skipped@.len() == 0,
            r.conflicts@.len() == 0,
    {
        ImportPlan { added: Vec::new(), updated: Vec::new(), skipped: Vec::new(), conflicts: Vec::new() }
    }
}

impl ImportPlan {
    /// How many records would be added.
    pub fn added_count(&self) -> (r: usize)
        ensures
            r == self.added@.len(),
    {
        self.added.len()
    }

    /// How many records would be updated.
    pub fn updated_count(&self) -> (r: usize)
        ensures
            r == self.updated@.len(),
    {
        self.updated.len()
    }

    /// How many records would be skipped.
    pub fn skipped_count(&self) -> (r: usize)
        ensures
            r == self.skipped@.len(),
    {
        self.skipped.len()
    }

    /// How many records conflict.
    pub fn conflicts_count(&self) -> (r: usize)
        ensures
            r == self.conflicts@.len(),
    {
        self.conflicts.len()
    }

    /// How many records the plan classifies in all.
    pub fn total(&self) -> (r: usize)
        requires
            self.added@.len() + self.updated@.len() + self.skipped@.len() + self.conflicts@.len() <= usize::MAX,
        ensures
            r == self.added@.len() + self.updated@.len() + self.skipped@.len() + self.conflicts@.len(),
    {
        self.added_count() + self.updated_count() + self.skipped_count() + self.conflicts_count()
    }
}

/// Whether a record of `folders` has id `id`.
pub open spec fn has_id(folders: Seq<FolderEntry>, id: FolderId) -> bool {
    exists|k: int| 0 <= k < folders.len() && #[trigger] folders[k].id == id
}

/// The path of the first record of `folders` with id `id`.
pub open spec fn first_path_with_id(folders: Seq<FolderEntry>, id: FolderId) -> Option<Seq<char>>
    decreases folders.len(),
{
    if folders.len() == 0 {
        None
    } else if folders[0].id == id {
        Some(folders[0].path@)
    } else {
        first_path_with_id(folders.drop_first(), id)
    }
}

/// Whether a record of `folders` other than `id` names the folder `path`.
pub open spec fn other_has_path(folders: Seq<FolderEntry>, id: FolderId, path: Seq<char>) -> bool {
    exists|k: int| 0 <= k < folders.len() && #[trigger] folders[k].id != id && same_path(folders[k].path@, path)
}

/// Whether one of `paths` names the folder `path`.
pub open spec fn seen_has_path(paths: Seq<Seq<char>>, path: Seq<char>) -> bool {
    exists|k: int| 0 <= k < paths.len() && same_path(#[trigger] paths[k], path)
}

/// The status of importing `folder` into `current`, given the paths already
/// added from the same file, in this order of priority: a record with the
/// same id is updated when the import wins and skipped otherwise, except
/// that under `Overwrite` an id match whose path is another record's is a
/// conflict; a record of another id naming the same folder is likewise
/// updated or skipped; a path already added from the file is skipped;
/// anything else is added.
pub open spec fn classify_spec(folder: FolderEntry, current: Seq<FolderEntry>, seen: Seq<Seq<char>>, mode: ImportMode) -> ItemStatus {
    let on_collision = if mode == ImportMode::Overwrite {
        ItemStatus::Updated
    } else {
        ItemStatus::Skipped
    };
    if has_id(current, folder.id) {
        if mode == ImportMode::Overwrite && !same_path(first_path_with_id(current, folder.id)->0, folder.path@)
            && other_has_path(current, folder.id, folder.path@) {
            ItemStatus::Conflict
        } else {
            on_collision
        }
    } else if other_has_path(current, folder.id, folder.path@) {
        on_collision
    } else if seen_has_path(seen, folder.path@) {
        ItemStatus::Skipped
    } else {
        ItemStatus::Added
    }
}

/// The plan of importing `incoming` into `current`: the display names
/// added, updated, skipped and in conflict, in the file's order, and the
/// paths added along the way.
pub open spec fn plan_spec(current: Seq<FolderEntry>, incoming: Seq<FolderEntry>, mode: ImportMode) -> (Seq<Seq<char>>, Seq<Seq<char>>, Seq<Seq<char>>, Seq<Seq<char>>, Seq<Seq<char>>)
    decreases incoming.len(),
{
    if incoming.len() == 0 {
        (seq![], seq![], seq![], seq![], seq![])
    } else {
        let p = plan_spec(current, incoming.drop_last(), mode);
        let f = incoming.last();
        match classify_spec(f, current, p.4, mode) {
            ItemStatus::Added => (p.0.push(f.display_name@), p.1, p.2, p.3, p.4.push(f.path@)),
            ItemStatus::Updated => (p.0, p.1.push(f.display_name@), p.2, p.3, p.4),
            ItemStatus::Skipped => (p.0, p.1, p.2.push(f.display_name@), p.3, p.4),
            ItemStatus::Conflict => (p.0, p.1, p.2, p.3.push(f.display_name@), p.4),
        }
    }
}

/// `plan` lists what [`plan_spec`] gives.
pub open spec fn plan_is(plan: ImportPlan, current: Seq<FolderEntry>, incoming: Seq<FolderEntry>, mode: ImportMode) -> bool {
    let p = plan_spec(current, incoming, mode);
    &&& names_of(plan.added@) == p.0
    &&& names_of(plan.updated@) == p.1
    &&& names_of(plan.skipped@) == p.2
    &&& names_of(plan.conflicts@) == p.3
}

proof fn lemma_first_path(folders: Seq<FolderEntry>, id: FolderId, k: int)
    requires
        0 <= k < folders.len(),
        folders[k].id == id,
        forall|j: int| 0 <= j < k ==> #[trigger] folders[j].id != id,
    ensures
        first_path_with_id(folders, id) == Some(folders[k].path@),
    decreases k,
{
    if k > 0 {
        assert forall|j: int| 0 <= j < k - 1 implies #[trigger] folders.drop_first()[j].id != id by {
            assert(folders.drop_first()[j] == folders[j + 1]);
        }
        lemma_first_path(folders.drop_first(), id, k - 1);
    }
}

/// The position of the first record of `folders` with id `id`.
fn find_id(folders: &[FolderEntry], id: FolderId) -> (r: Option<usize>)
    ensures
        r is None <==> !has_id(folders@, id),
        r matches Some(k) ==> k < folders@.len() && folders@[k as int].id == id && first_path_with_id(folders@, id)
            == Some(folders@[k as int].path@),
{
    for i in 0..folders.len()
        invariant
            forall|j: int| 0 <= j < i ==> #[trigger] folders@[j].id != id,
    {
        if folders[i].id == id {
            proof {
                lemma_first_path(folders@, id, i as int);
            }
            return Some(i);
        }
    }
    None
}

fn other_with_path(folders: &[FolderEntry], id: FolderId, path: &str) -> (r: bool)
    ensures
        r == other_has_path(folders@, id, path@),
{
    for i in 0..folders.len()
        invariant
            forall|j: int| 0 <= j < i ==> !(#[trigger] folders@[j].id != id && same_path(folders@[j].path@, path@)),
    {
        if folders[i].id != id && paths_match(folders[i].path.as_str(), path) {
            return true;
        }
    }
    false
}

fn seen_with_path(seen: &Vec<String>, path: &str) -> (r: bool)
    ensures
        r == seen_has_path(names_of(seen@), path@),
{
    for i in 0..seen.len()
        invariant
            forall|j: int| 0 <= j < i ==> !same_path(#[trigger] names_of(seen@)[j], path@),
    {
        if paths_match(seen[i].as_str(), path) {
            assert(names_of(seen@)[i as int] == seen@[i as int]@);
            return true;
        }
    }
    false
}

/// Classifies `folder` (see [`classify_spec`]); an added record's path joins
/// `seen`.
fn classify(folder: &FolderEntry, current: &[FolderEntry], seen: &mut Vec<String>, mode: ImportMode) -> (r: ItemStatus)
    ensures
        r == classify_spec(*folder, current@, names_of(old(seen)@), mode),
        names_of(final(seen)@) == if r is Added {
            names_of(old(seen)@).push(folder.path@)
        } else {
            names_of(old(seen)@)
        },
{
    let overwrite = mode.overwrite_wins();
    let on_collision = if overwrite {
        ItemStatus::Updated
    } else {
        ItemStatus::Skipped
    };
    match find_id(current, folder.id) {
        Some(k) => {
            if overwrite && !paths_match(current[k].path.as_str(), folder.path.as_str()) && other_with_path(
                current,
                folder.id,
                folder.path.as_str(),
            ) {
                return ItemStatus::Conflict;
            }
            return on_collision;
        },
        None => {},
    }
    if other_with_path(current, folder.id, folder.path.as_str()) {
        return on_collision;
    }
    if seen_with_path(seen, folder.path.as_str()) {
        return ItemStatus::Skipped;
    }
    let ghost before = seen@;
    seen.push(folder.path.clone());
    assert(names_of(seen@) =~= names_of(before).push(folder.path@));
    ItemStatus::Added
}

/// The preview of importing `incoming` into `current` under `mode`: every
/// imported record classified by [`classify_spec`] in the file's order, its
/// display name listed in the bucket of its status. Nothing is changed.
pub fn plan_import(current: &AppData, incoming: &AppData, mode: ImportMode) -> (r: ImportPlan)
    ensures
        plan_is(r, current.folders@, incoming.folders@, mode),
{
    let mut plan = ImportPlan::default();
    let mut seen: Vec<String> = Vec::new();
    let folders = &incoming.folders;
    assert(folders@.take(0).len() == 0);
    assert(names_of(plan.added@) =~= Seq::<Seq<char>>::empty());
    assert(names_of(plan.updated@) =~= Seq::<Seq<char>>::empty());
    assert(names_of(plan.skipped@) =~= Seq::<Seq<char>>::empty());
    assert(names_of(plan.conflicts@) =~= Seq::<Seq<char>>::empty());
    assert(names_of(seen@) =~= Seq::<Seq<char>>::empty());
    for i in 0..folders.len()
        invariant
            plan_is(plan, current.folders@, folders@.take(i as int), mode),
            names_of(seen@) == plan_spec(current.folders@, folders@.take(i as int), mode).4,
    {
        let ghost p = plan_spec(current.folders@, folders@.take(i as int), mode);
        assert(folders@.take(i + 1).drop_last() == folders@.take(i as int));
        assert(folders@.take(i + 1).last() == folders@[i as int]);
        let f = &folders[i];
        let status = classify(f, current.folders.as_slice(), &mut seen, mode);
        let ghost old_plan = plan;
        let name = f.display_name.clone();
        match status {
            ItemStatus::Added => plan.added.push(name),
            ItemStatus::Updated => plan.updated.push(name),
            ItemStatus::Skipped => plan.skipped.push(name),
            ItemStatus::Conflict => plan.conflicts.push(name),
        }
        proof {
            assert(names_of(plan.added@) =~= if status is Added { p.0.push(f.display_name@) } else { p.0 });
            assert(names_of(plan.updated@) =~= if status is Updated { p.1.push(f.display_name@) } else { p.1 });
            assert(names_of(plan.skipped@) =~= if status is Skipped { p.2.push(f.display_name@) } else { p.2 });
            assert(names_of(plan.conflicts@) =~= if status is Conflict { p.3.push(f.display_name@) } else { p.3 });
        }
    }
    assert(folders@.take(folders@.len() as int) == folders@);
    plan
}

/// The categories after an import: each imported category replaces the
/// first one of its id, or is appended when its id is new.
pub open spec fn upsert_categories(cats: Seq<Category>, incoming: Seq<Category>) -> Seq<Category>
    decreases incoming.len(),
{
    if incoming.len() == 0 {
        cats
    } else {
        let c = upsert_categories(cats, incoming.drop_last());
        let x = incoming.last();
        match first_index(c, |y: Category| y.id == x.id) {
            Some(k) => c.update(k, x),
            None => c.push(x),
        }
    }
}

/// The tags after an import, upserted by id like the categories.
pub open spec fn upsert_tags(tags: Seq<Tag>, incoming: Seq<Tag>) -> Seq<Tag>
    decreases incoming.len(),
{
    if incoming.len() == 0 {
        tags
    } else {
        let c = upsert_tags(tags, incoming.drop_last());
        let x = incoming.last();
        match first_index(c, |y: Tag| y.id == x.id) {
            Some(k) => c.update(k, x),
            None => c.push(x),
        }
    }
}

/// The records after importing `incoming` into `current`, record by record
/// as [`classify_spec`] decides: an added record is appended; an updated one
/// replaces the record of its id, keeping that record's creation time, or,
/// failing an id match, the first record naming the same folder, keeping
/// that record's id and creation time. `None` when an update finds no record
/// to replace (an earlier update of the same file moved it away).
pub open spec fn apply_folders(current: Seq<FolderEntry>, incoming: Seq<FolderEntry>, mode: ImportMode) -> Option<Seq<FolderEntry>>
    decreases incoming.len(),
{
    if incoming.len() == 0 {
        Some(current)
    } else {
        match apply_folders(current, incoming.drop_last(), mode) {
            None => None,
            Some(fs) => {
                let f = incoming.last();
                match classify_spec(f, current, plan_spec(current, incoming.drop_last(), mode).4, mode) {
                    ItemStatus::Updated => match first_index(fs, |g: FolderEntry| g.id == f.id) {
                        Some(k) => Some(fs.update(k, FolderEntry { created_at: fs[k].created_at, ..f })),
                        None => match first_index(fs, |g: FolderEntry| same_path(g.path@, f.path@)) {
                            Some(k) => Some(fs.update(k, FolderEntry { id: fs[k].id, created_at: fs[k].created_at, ..f })),
                            None => None,
                        },
                    },
                    ItemStatus::Added => Some(fs.push(f)),
                    _ => Some(fs),
                }
            },
        }
    }
}

/// Whether every category and tag that `folders` refer to is among `cats`
/// and `tags`.
pub open spec fn references_resolve(folders: Seq<FolderEntry>, cats: Seq<Category>, tags: Seq<Tag>) -> bool {
    forall|k: int| 0 <= k < folders.len() ==> #[trigger] record_resolves(folders[k], cats, tags)
}

/// Whether a category of `cats` has id `id`.
pub open spec fn category_known(cats: Seq<Category>, id: CategoryId) -> bool {
    exists|j: int| 0 <= j < cats.len() && #[trigger] cats[j].id == id
}

/// Whether a tag of `tags` has id `id`.
pub open spec fn tag_known(tags: Seq<Tag>, id: TagId) -> bool {
    exists|j: int| 0 <= j < tags.len() && #[trigger] tags[j].id == id
}

/// Whether the category and tags of `f` are among `cats` and `tags`.
pub open spec fn record_resolves(f: FolderEntry, cats: Seq<Category>, tags: Seq<Tag>) -> bool {
    &&& (f.category_id matches Some(c) ==> category_known(cats, c))
    &&& forall|t: int| 0 <= t < f.tag_ids@.len() ==> tag_known(tags, #[trigger] f.tag_ids@[t])
}

/// Whether two of `folders` name the same folder.
pub open spec fn has_duplicate_paths(folders: Seq<FolderEntry>) -> bool {
    exists|a: int, b: int| 0 <= a < b < folders.len() && same_path(#[trigger] folders[a].path@, #[trigger] folders[b].path@)
}

/// Why applying `incoming` onto `current` is refused, if it is: a conflict
/// in the plan or an update with nothing to replace (`DuplicatePath`),
/// references the merged categories and tags do not resolve
/// (`UnresolvedReference`), or two merged records naming the same folder
/// (`DuplicatePath`).
pub open spec fn apply_refusal(current: AppData, incoming: AppData, mode: ImportMode) -> Option<ImportErrorKind> {
    let fs = apply_folders(current.folders@, incoming.folders@, mode);
    if fs is None || plan_spec(current.folders@, incoming.folders@, mode).3.len() > 0 {
        Some(ImportErrorKind::DuplicatePath)
    } else if !references_resolve(
        fs->0,
        upsert_categories(current.categories@, incoming.categories@),
        upsert_tags(current.tags@, incoming.tags@),
    ) {
        Some(ImportErrorKind::UnresolvedReference)
    } else if has_duplicate_paths(fs->0) {
        Some(ImportErrorKind::DuplicatePath)
    } else {
        None
    }
}

/// `a` is a copy of `b`: every field equal, texts by content.
pub open spec fn same_folder(a: FolderEntry, b: FolderEntry) -> bool {
    &&& a.id == b.id
    &&& a.display_name@ == b.display_name@
    &&& same_strings(a.aliases@, b.aliases@)
    &&& a.path@ == b.path@
    &&& a.enabled == b.enabled
    &&& a.favorite == b.favorite
    &&& a.pinned == b.pinned
    &&& a.manual_weight == b.manual_weight
    &&& a.category_id == b.category_id
    &&& a.tag_ids@ == b.tag_ids@
    &&& a.note@ == b.note@
    &&& a.color == b.color
    &&& a.sort_order == b.sort_order
    &&& a.created_at == b.created_at
    &&& a.updated_at == b.updated_at
    &&& a.last_opened_at == b.last_opened_at
    &&& a.open_count == b.open_count
}

/// `a` and `b` hold copies of the same records in the same order.
pub open spec fn same_folders(a: Seq<FolderEntry>, b: Seq<FolderEntry>) -> bool {
    a.len() == b.len() && forall|k: int| 0 <= k < a.len() ==> same_folder(#[trigger] a[k], b[k])
}

pub(crate) fn copy_tag_ids(v: &Vec<TagId>) -> (r: Vec<TagId>)
    ensures
        r@ == v@,
{
    let mut r: Vec<TagId> = Vec::new();
    for i in 0..v.len()
        invariant
            r@ == v@.take(i as int),
    {
        r.push(v[i]);
        assert(v@.take(i + 1) == v@.take(i as int).push(v@[i as int]));
    }
    assert(v@.take(v@.len() as int) == v@);
    r
}

/// A copy of `f` with the given id and creation time.
pub(crate) fn copy_folder(f: &FolderEntry, id: FolderId, created_at: i64) -> (r: FolderEntry)
    ensures
        same_folder(r, FolderEntry { id, created_at, ..*f }),
{
    FolderEntry {
        id,
        display_name: f.display_name.clone(),
        aliases: copy_strings(&f.aliases),
        path: f.path.clone(),
        enabled: f.enabled,
        favorite: f.favorite,
        pinned: f.pinned,
        manual_weight: f.manual_weight,
        category_id: f.category_id,
        tag_ids: copy_tag_ids(&f.tag_ids),
        note: f.note.clone(),
        color: f.color,
        sort_order: f.sort_order,
        created_at,
        updated_at: f.updated_at,
        last_opened_at: f.last_opened_at,
        open_count: f.open_count,
    }
}

fn copy_category(c: &Category) -> (r: Category)
    ensures
        r == *c,
{
    Category { id: c.id, name: c.name.clone(), color: c.color }
}

fn copy_tag(t: &Tag) -> (r: Tag)
    ensures
        r == *t,
{
    Tag { id: t.id, name: t.name.clone() }
}

fn upsert_category_list(cats: &Vec<Category>, incoming: &Vec<Category>) -> (r: Vec<Category>)
    ensures
        r@ == upsert_categories(cats@, incoming@),
{
    let mut r: Vec<Category> = Vec::new();
    for i in 0..cats.len()
        invariant
            r@ == cats@.take(i as int),
    {
        r.push(copy_category(&cats[i]));
        assert(cats@.take(i + 1) == cats@.take(i as int).push(cats@[i as int]));
    }
    assert(cats@.take(cats@.len() as int) == cats@);
    assert(incoming@.take(0).len() == 0);
    for i in 0..incoming.len()
        invariant
            r@ == upsert_categories(cats@, incoming@.take(i as int)),
    {
        let x = copy_category(&incoming[i]);
        assert(incoming@.take(i + 1).drop_last() == incoming@.take(i as int));
        assert(incoming@.take(i + 1).last() == incoming@[i as int]);
        let ghost c = r@;
        let ghost p = |y: Category| y.id == x.id;
        let mut k: usize = 0;
        while k < r.len() && r[k].id != x.id
            invariant
                0 <= k <= r@.len(),
                r@ == c,
                forall|j: int| 0 <= j < k ==> #[trigger] c[j].id != x.id,
            decreases r@.len() - k,
        {
            k = k + 1;
        }
        proof {
            assert forall|j: int| 0 <= j < k implies !p(#[trigger] c[j]) by {}
            lemma_first_index(c, p, k as int);
        }
        if k < r.len() {
            r.set(k, x);
        } else {
            r.push(x);
        }
    }
    assert(incoming@.take(incoming@.len() as int) == incoming@);
    r
}

fn upsert_tag_list(tags: &Vec<Tag>, incoming: &Vec<Tag>) -> (r: Vec<Tag>)
    ensures
        r@ == upsert_tags(tags@, incoming@),
{
    let mut r: Vec<Tag> = Vec::new();
    for i in 0..tags.len()
        invariant
            r@ == tags@.take(i as int),
    {
        r.push(copy_tag(&tags[i]));
        assert(tags@.take(i + 1) == tags@.take(i as int).push(tags@[i as int]));
    }
    assert(tags@.take(tags@.len() as int) == tags@);
    assert(incoming@.take(0).len() == 0);
    for i in 0..incoming.len()
        invariant
            r@ == upsert_tags(tags@, incoming@.take(i as int)),
    {
        let x = copy_tag(&incoming[i]);
        assert(incoming@.take(i + 1).drop_last() == incoming@.take(i as int));
        assert(incoming@.take(i + 1).last() == incoming@[i as int]);
        let ghost c = r@;
        let ghost p = |y: Tag| y.id == x.id;
        let mut k: usize = 0;
        while k < r.len() && r[k].id != x.id
            invariant
                0 <= k <= r@.len(),
                r@ == c,
                forall|j: int| 0 <= j < k ==> #[trigger] c[j].id != x.id,
            decreases r@.len() - k,
        {
            k = k + 1;
        }
        proof {
            assert forall|j: int| 0 <= j < k implies !p(#[trigger] c[j]) by {}
            lemma_first_index(c, p, k as int);
        }
        if k < r.len() {
            r.set(k, x);
        } else {
            r.push(x);
        }
    }
    assert(incoming@.take(incoming@.len() as int) == incoming@);
    r
}

fn copy_folders(v: &Vec<FolderEntry>) -> (r: Vec<FolderEntry>)
    ensures
        same_folders(r@, v@),
{
    let mut r: Vec<FolderEntry> = Vec::new();
    for i in 0..v.len()
        invariant
            r@.len() == i,
            forall|k: int| 0 <= k < i ==> same_folder(#[trigger] r@[k], v@[k]),
    {
        r.push(copy_folder(&v[i], v[i].id, v[i].created_at));
    }
    r
}

proof fn lemma_same_folders_agree(a: Seq<FolderEntry>, b: Seq<FolderEntry>, cats: Seq<Category>, tags: Seq<Tag>)
    requires
        same_folders(a, b),
    ensures
        references_resolve(a, cats, tags) == references_resolve(b, cats, tags),
        has_duplicate_paths(a) == has_duplicate_paths(b),
{
    assert forall|k: int| 0 <= k < a.len() implies #[trigger] record_resolves(a[k], cats, tags) == record_resolves(b[k], cats, tags) by {
        assert(same_folder(a[k], b[k]));
    }
    if references_resolve(a, cats, tags) {
        assert forall|k: int| 0 <= k < b.len() implies #[trigger] record_resolves(b[k], cats, tags) by {
            assert(record_resolves(a[k], cats, tags));
        }
    }
    if references_resolve(b, cats, tags) {
        assert forall|k: int| 0 <= k < a.len() implies #[trigger] record_resolves(a[k], cats, tags) by {
            assert(record_resolves(b[k], cats, tags));
        }
    }
    if has_duplicate_paths(a) {
        let (x, y) = choose|x: int, y: int| 0 <= x < y < a.len() && same_path(#[trigger] a[x].path@, #[trigger] a[y].path@);
        assert(same_folder(a[x], b[x]) && same_folder(a[y], b[y]));
        assert(same_path(b[x].path@, b[y].path@));
    }
    if has_duplicate_paths(b) {
        let (x, y) = choose|x: int, y: int| 0 <= x < y < b.len() && same_path(#[trigger] b[x].path@, #[trigger] b[y].path@);
        assert(same_folder(a[x], b[x]) && same_folder(a[y], b[y]));
        assert(same_path(a[x].path@, a[y].path@));
    }
}

fn category_listed(cats: &Vec<Category>, id: CategoryId) -> (r: bool)
    ensures
        r == category_known(cats@, id),
{
    for j in 0..cats.len()
        invariant
            forall|m: int| 0 <= m < j ==> #[trigger] cats@[m].id != id,
    {
        if cats[j].id == id {
            return true;
        }
    }
    false
}

fn tag_listed(tags: &Vec<Tag>, id: TagId) -> (r: bool)
    ensures
        r == tag_known(tags@, id),
{
    for j in 0..tags.len()
        invariant
            forall|m: int| 0 <= m < j ==> #[trigger] tags@[m].id != id,
    {
        if tags[j].id == id {
            return true;
        }
    }
    false
}

fn record_ok(f: &FolderEntry, cats: &Vec<Category>, tags: &Vec<Tag>) -> (r: bool)
    ensures
        r == record_resolves(*f, cats@, tags@),
{
    match f.category_id {
        Some(c) => {
            if !category_listed(cats, c) {
                return false;
            }
        },
        None => {},
    }
    for t in 0..f.tag_ids.len()
        invariant
            forall|m: int| 0 <= m < t ==> tag_known(tags@, #[trigger] f.tag_ids@[m]),
    {
        if !tag_listed(tags, f.tag_ids[t]) {
            return false;
        }
    }
    true
}

/// Whether every category and tag that `folders` refer to is among `cats`
/// and `tags`.
pub fn references_ok(folders: &Vec<FolderEntry>, cats: &Vec<Category>, tags: &Vec<Tag>) -> (r: bool)
    ensures
        r == references_resolve(folders@, cats@, tags@),
{
    for k in 0..folders.len()
        invariant
            forall|m: int| 0 <= m < k ==> #[trigger] record_resolves(folders@[m], cats@, tags@),
    {
        if !record_ok(&folders[k], cats, tags) {
            return false;
        }
    }
    true
}

/// Whether two of `folders` name the same folder.
pub fn duplicate_paths(folders: &Vec<FolderEntry>) -> (r: bool)
    ensures
        r == has_duplicate_paths(folders@),
{
    for b in 0..folders.len()
        invariant
            forall|x: int, y: int| 0 <= x < y < b ==> !same_path(#[trigger] folders@[x].path@, #[trigger] folders@[y].path@),
    {
        for a in 0..b
            invariant
                b < folders@.len(),
                forall|x: int, y: int| 0 <= x < y < b ==> !same_path(#[trigger] folders@[x].path@, #[trigger] folders@[y].path@),
                forall|x: int| 0 <= x < a ==> !same_path(#[trigger] folders@[x].path@, folders@[b as int].path@),
        {
            if paths_match(folders[a].path.as_str(), folders[b].path.as_str()) {
                return true;
            }
        }
    }
    false
}

/// The ids that `folders` keep, position by position, from `before`.
pub open spec fn keeps_ids(folders: Seq<FolderEntry>, before: Seq<FolderEntry>) -> bool {
    before.len() <= folders.len() && forall|k: int| 0 <= k < before.len() ==> #[trigger] folders[k].id == before[k].id
}

proof fn lemma_apply_folders_shape(current: Seq<FolderEntry>, incoming: Seq<FolderEntry>, mode: ImportMode)
    ensures
        apply_folders(current, incoming, mode) matches Some(fs) ==> fs.len() == current.len() + plan_spec(
            current,
            incoming,
            mode,
        ).0.len() && keeps_ids(fs, current),
    decreases incoming.len(),
{
    if incoming.len() > 0 {
        lemma_apply_folders_shape(current, incoming.drop_last(), mode);
        if let Some(fs) = apply_folders(current, incoming.drop_last(), mode) {
            let f = incoming.last();
            lemma_first_index_found(fs, |g: FolderEntry| g.id == f.id);
            lemma_first_index_found(fs, |g: FolderEntry| same_path(g.path@, f.path@));
        }
    }
}

/// Whether the category `x` of `incoming` is the last of its id there.
pub open spec fn last_of_category_id(incoming: Seq<Category>, j: int) -> bool {
    forall|l: int| j < l < incoming.len() ==> #[trigger] incoming[l].id != incoming[j].id
}

/// Whether the tag `x` of `incoming` is the last of its id there.
pub open spec fn last_of_tag_id(incoming: Seq<Tag>, j: int) -> bool {
    forall|l: int| j < l < incoming.len() ==> #[trigger] incoming[l].id != incoming[j].id
}

proof fn lemma_upsert_categories(cats: Seq<Category>, incoming: Seq<Category>)
    ensures
        forall|i: int| 0 <= i < cats.len() ==> category_known(upsert_categories(cats, incoming), #[trigger] cats[i].id),
        forall|j: int| 0 <= j < incoming.len() ==> category_known(upsert_categories(cats, incoming), #[trigger] incoming[j].id),
        forall|j: int| 0 <= j < incoming.len() && #[trigger] last_of_category_id(incoming, j) ==> exists|i: int|
            0 <= i < upsert_categories(cats, incoming).len() && upsert_categories(cats, incoming)[i] == incoming[j],
    decreases incoming.len(),
{
    if incoming.len() > 0 {
        let prev = incoming.drop_last();
        lemma_upsert_categories(cats, prev);
        let c = upsert_categories(cats, prev);
        let x = incoming.last();
        let r = upsert_categories(cats, incoming);
        lemma_first_index_found(c, |y: Category| y.id == x.id);
        assert forall|id: CategoryId| category_known(c, id) implies category_known(r, id) by {
            let i = choose|i: int| 0 <= i < c.len() && #[trigger] c[i].id == id;
            match first_index(c, |y: Category| y.id == x.id) {
                Some(k) => assert(r[i].id == id),
                None => assert(r[i] == c[i]),
            }
        }
        match first_index(c, |y: Category| y.id == x.id) {
            Some(k) => assert(r[k] == x),
            None => assert(r[c.len() as int] == x),
        }
        assert forall|j: int| 0 <= j < incoming.len() implies category_known(r, #[trigger] incoming[j].id) by {
            if j < prev.len() {
                assert(prev[j] == incoming[j]);
            }
        }
        assert forall|j: int| 0 <= j < incoming.len() && #[trigger] last_of_category_id(incoming, j) implies exists|i: int|
            0 <= i < r.len() && r[i] == incoming[j] by {
            if j < prev.len() {
                assert(prev[j] == incoming[j]);
                assert(last_of_category_id(prev, j)) by {
                    assert forall|l: int| j < l < prev.len() implies #[trigger] prev[l].id != prev[j].id by {
                        assert(prev[l] == incoming[l]);
                    }
                }
                let i = choose|i: int| 0 <= i < c.len() && c[i] == prev[j];
                assert(incoming[incoming.len() - 1].id != incoming[j].id);
                match first_index(c, |y: Category| y.id == x.id) {
                    Some(k) => assert(r[i] == c[i]),
                    None => assert(r[i] == c[i]),
                }
            } else {
                match first_index(c, |y: Category| y.id == x.id) {
                    Some(k) => assert(r[k] == x),
                    None => assert(r[c.len() as int] == x),
                }
            }
        }
    }
}

proof fn lemma_upsert_tags(tags: Seq<Tag>, incoming: Seq<Tag>)
    ensures
        forall|i: int| 0 <= i < tags.len() ==> tag_known(upsert_tags(tags, incoming), #[trigger] tags[i].id),
        forall|j: int| 0 <= j < incoming.len() ==> tag_known(upsert_tags(tags, incoming), #[trigger] incoming[j].id),
        forall|j: int| 0 <= j < incoming.len() && #[trigger] last_of_tag_id(incoming, j) ==> exists|i: int|
            0 <= i < upsert_tags(tags, incoming).len() && upsert_tags(tags, incoming)[i] == incoming[j],
    decreases incoming.len(),
{
    if incoming.len() > 0 {
        let prev = incoming.drop_last();
        lemma_upsert_tags(tags, prev);
        let c = upsert_tags(tags, prev);
        let x = incoming.last();
        let r = upsert_tags(tags, incoming);
        lemma_first_index_found(c, |y: Tag| y.id == x.id);
        assert forall|id: TagId| tag_known(c, id) implies tag_known(r, id) by {
            let i = choose|i: int| 0 <= i < c.len() && #[trigger] c[i].id == id;
            match first_index(c, |y: Tag| y.id == x.id) {
                Some(k) => assert(r[i].id == id),
                None => assert(r[i] == c[i]),
            }
        }
        match first_index(c, |y: Tag| y.id == x.id) {
            Some(k) => assert(r[k] == x),
            None => assert(r[c.len() as int] == x),
        }
        assert forall|j: int| 0 <= j < incoming.len() implies tag_known(r, #[trigger] incoming[j].id) by {
            if j < prev.len() {
                assert(prev[j] == incoming[j]);
            }
        }
        assert forall|j: int| 0 <= j < incoming.len() && #[trigger] last_of_tag_id(incoming, j) implies exists|i: int|
            0 <= i < r.len() && r[i] == incoming[j] by {
            if j < prev.len() {
                assert(prev[j] == incoming[j]);
                assert(last_of_tag_id(prev, j)) by {
                    assert forall|l: int| j < l < prev.len() implies #[trigger] prev[l].id != prev[j].id by {
                        assert(prev[l] == incoming[l]);
                    }
                }
                let i = choose|i: int| 0 <= i < c.len() && c[i] == prev[j];
                assert(incoming[incoming.len() - 1].id != incoming[j].id);
                match first_index(c, |y: Tag| y.id == x.id) {
                    Some(k) => assert(r[i] == c[i]),
                    None => assert(r[i] == c[i]),
                }
            } else {
                match first_index(c, |y: Tag| y.id == x.id) {
                    Some(k) => assert(r[k] == x),
                    None => assert(r[c.len() as int] == x),
                }
            }
        }
    }
}

/// Law: an import that is not refused keeps every current record (its id
/// at its position) and appends exactly the planned additions, leaves no two
/// records naming the same folder, keeps every current category and tag
/// id, and brings in every imported category and tag: each id is present,
/// and the last imported category or tag of an id is present as imported.
pub proof fn lemma_apply_import_keeps_records(current: AppData, incoming: AppData, mode: ImportMode)
    requires
        apply_refusal(current, incoming, mode) is None,
    ensures
        apply_folders(current.folders@, incoming.folders@, mode) is Some,
        ({
            let fs = apply_folders(current.folders@, incoming.folders@, mode)->0;
            &&& fs.len() == current.folders@.len() + plan_spec(current.folders@, incoming.folders@, mode).0.len()
            &&& keeps_ids(fs, current.folders@)
            &&& !has_duplicate_paths(fs)
        }),
        forall|i: int| 0 <= i < current.categories@.len() ==> category_known(
            upsert_categories(current.categories@, incoming.categories@),
            #[trigger] current.categories@[i].id,
        ),
        forall|j: int| 0 <= j < incoming.categories@.len() ==> category_known(
            upsert_categories(current.categories@, incoming.categories@),
            #[trigger] incoming.categories@[j].id,
        ),
        forall|j: int| 0 <= j < incoming.categories@.len() && #[trigger] last_of_category_id(incoming.categories@, j)
            ==> exists|i: int| 0 <= i < upsert_categories(current.categories@, incoming.categories@).len()
                && upsert_categories(current.categories@, incoming.categories@)[i] == incoming.categories@[j],
        forall|i: int| 0 <= i < current.tags@.len() ==> tag_known(
            upsert_tags(current.tags@, incoming.tags@),
            #[trigger] current.tags@[i].id,
        ),
        forall|j: int| 0 <= j < incoming.tags@.len() ==> tag_known(
            upsert_tags(current.tags@, incoming.tags@),
            #[trigger] incoming.tags@[j].id,
        ),
        forall|j: int| 0 <= j < incoming.tags@.len() && #[trigger] last_of_tag_id(incoming.tags@, j) ==> exists|i: int|
            0 <= i < upsert_tags(current.tags@, incoming.tags@).len() && upsert_tags(current.tags@, incoming.tags@)[i]
                == incoming.tags@[j],
{
    lemma_apply_folders_shape(current.folders@, incoming.folders@, mode);
    lemma_upsert_categories(current.categories@, incoming.categories@);
    lemma_upsert_tags(current.tags@, incoming.tags@);
}

/// Applies `incoming` onto `current` under `mode`, all or nothing: the
/// document that results keeps the current settings and revision, holds the
/// records [`apply_folders`] gives (as copies) and the categories and tags
/// upserted by id, and comes with the same plan as [`plan_import`]; it is
/// refused, with nothing changed, exactly as [`apply_refusal`] says.
pub fn apply_import(current: &AppData, incoming: &AppData, mode: ImportMode) -> (r: Result<(StoredDocumentV1, ImportPlan), ImportError>)
    ensures
        match r {
            Ok((document, plan)) => {
                &&& apply_refusal(*current, *incoming, mode) is None
                &&& document.schema_version == CURRENT_SCHEMA_VERSION
                &&& document.data.settings == current.settings
                &&& document.data.revision == current.revision
                &&& same_folders(document.data.folders@, apply_folders(current.folders@, incoming.folders@, mode)->0)
                &&& document.data.categories@ == upsert_categories(current.categories@, incoming.categories@)
                &&& document.data.tags@ == upsert_tags(current.tags@, incoming.tags@)
                &&& plan_is(plan, current.folders@, incoming.folders@, mode)
            },
            Err(e) => apply_refusal(*current, *incoming, mode) == Some(e.kind),
        },
{
    let categories = upsert_category_list(&current.categories, &incoming.categories);
    let tags = upsert_tag_list(&current.tags, &incoming.tags);
    let mut plan = ImportPlan::default();
    let mut seen: Vec<String> = Vec::new();
    let mut folders = copy_folders(&current.folders);
    let mut stranded = false;
    let ghost cur = current.folders@;
    let incoming_folders = &incoming.folders;
    assert(incoming_folders@.take(0).len() == 0);
    assert(names_of(plan.added@) =~= Seq::<Seq<char>>::empty());
    assert(names_of(plan.updated@) =~= Seq::<Seq<char>>::empty());
    assert(names_of(plan.skipped@) =~= Seq::<Seq<char>>::empty());
    assert(names_of(plan.conflicts@) =~= Seq::<Seq<char>>::empty());
    assert(names_of(seen@) =~= Seq::<Seq<char>>::empty());
    for i in 0..incoming_folders.len()
        invariant
            cur == current.folders@,
            plan_is(plan, cur, incoming_folders@.take(i as int), mode),
            names_of(seen@) == plan_spec(cur, incoming_folders@.take(i as int), mode).4,
            !stranded ==> (apply_folders(cur, incoming_folders@.take(i as int), mode) matches Some(fs) && same_folders(folders@, fs)),
            stranded ==> apply_folders(cur, incoming_folders@.take(i as int), mode) is None,
    {
        let ghost prefix = incoming_folders@.take(i as int);
        let ghost p = plan_spec(cur, prefix, mode);
        let ghost before = folders@;
        assert(incoming_folders@.take(i + 1).drop_last() == prefix);
        assert(incoming_folders@.take(i + 1).last() == incoming_folders@[i as int]);
        let f = &incoming_folders[i];
        let status = classify(f, current.folders.as_slice(), &mut seen, mode);
        if !stranded {
            let ghost fs = apply_folders(cur, prefix, mode)->0;
            match status {
                ItemStatus::Updated => {
                    let ghost by_id = |g: FolderEntry| g.id == f.id;
                    let mut k: usize = 0;
                    while k < folders.len() && folders[k].id != f.id
                        invariant
                            0 <= k <= folders@.len(),
                            folders@ == before,
                            same_folders(before, fs),
                            forall|j: int| 0 <= j < k ==> #[trigger] fs[j].id != f.id,
                        decreases folders@.len() - k,
                    {
                        assert(same_folder(folders@[k as int], fs[k as int]));
                        k = k + 1;
                    }
                    proof {
                        if k < folders@.len() {
                            assert(same_folder(folders@[k as int], fs[k as int]));
                        }
                        assert forall|j: int| 0 <= j < k implies !by_id(#[trigger] fs[j]) by {}
                        lemma_first_index(fs, by_id, k as int);
                    }
                    if k < folders.len() {
                        let created_at = folders[k].created_at;
                        let replacement = copy_folder(f, f.id, created_at);
                        folders.set(k, replacement);
                        proof {
                            assert(same_folders(folders@, fs.update(k as int, FolderEntry { created_at: fs[k as int].created_at, ..*f })));
                        }
                    } else {
                        let ghost by_path = |g: FolderEntry| same_path(g.path@, f.path@);
                        let mut m: usize = 0;
                        while m < folders.len() && !paths_match(folders[m].path.as_str(), f.path.as_str())
                            invariant
                                0 <= m <= folders@.len(),
                                folders@ == before,
                                same_folders(before, fs),
                                forall|j: int| 0 <= j < m ==> !same_path(#[trigger] fs[j].path@, f.path@),
                            decreases folders@.len() - m,
                        {
                            assert(same_folder(folders@[m as int], fs[m as int]));
                            m = m + 1;
                        }
                        proof {
                            if m < folders@.len() {
                                assert(same_folder(folders@[m as int], fs[m as int]));
                            }
                            assert forall|j: int| 0 <= j < m implies !by_path(#[trigger] fs[j]) by {}
                            lemma_first_index(fs, by_path, m as int);
                        }
                        if m < folders.len() {
                            let id = folders[m].id;
                            let created_at = folders[m].created_at;
                            let replacement = copy_folder(f, id, created_at);
                            folders.set(m, replacement);
                            proof {
                                assert(same_folders(folders@, fs.update(m as int, FolderEntry { id: fs[m as int].id, created_at: fs[m as int].created_at, ..*f })));
                            }
                        } else {
                            stranded = true;
                        }
                    }
                },
                ItemStatus::Added => {
                    folders.push(copy_folder(f, f.id, f.created_at));
                    proof {
                        assert(same_folders(folders@, fs.push(*f)));
                    }
                },
                _ => {},
            }
        }
        let name = f.display_name.clone();
        match status {
            ItemStatus::Added => plan.added.push(name),
            ItemStatus::Updated => plan.updated.push(name),
            ItemStatus::Skipped => plan.skipped.push(name),
            ItemStatus::Conflict => plan.conflicts.push(name),
        }
        proof {
            assert(names_of(plan.added@) =~= if status is Added { p.0.push(f.display_name@) } else { p.0 });
            assert(names_of(plan.updated@) =~= if status is Updated { p.1.push(f.display_name@) } else { p.1 });
            assert(names_of(plan.skipped@) =~= if status is Skipped { p.2.push(f.display_name@) } else { p.2 });
            assert(names_of(plan.conflicts@) =~= if status is Conflict { p.3.push(f.display_name@) } else { p.3 });
        }
    }
    assert(incoming_folders@.take(incoming_folders@.len() as int) == incoming_folders@);
    if stranded || plan.conflicts.len() > 0 {
        return Err(ImportError::new(ImportErrorKind::DuplicatePath));
    }
    proof {
        lemma_same_folders_agree(folders@, apply_folders(cur, incoming.folders@, mode)->0, categories@, tags@);
    }
    if !references_ok(&folders, &categories, &tags) {
        return Err(ImportError::new(ImportErrorKind::UnresolvedReference));
    }
    if duplicate_paths(&folders) {
        return Err(ImportError::new(ImportErrorKind::DuplicatePath));
    }
    let data = AppData { settings: current.settings, folders, categories, tags, revision: current.revision };
    Ok((StoredDocumentV1::new(data), plan))
}

} // verus!
