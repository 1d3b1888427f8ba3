//! Folder, category and tag management rules: name policy, the favorites
//! cap, the controlled one-level child import, merge-target resolution, tag
//! usage and the management list projection. No window, no I/O.
//!
//! Errors are anonymous: no full path is carried in an error value.

use vstd::prelude::*;

use crate::order::{first_index, lemma_first_index, lemma_lex_lt_order, lemma_strictly_ordered_unique, lex_less, lex_lt, strictly_ordered};
use crate::path_semantics::{leaf_name, leaf_name_of, path_key, path_key_of, paths_match, same_path};
use crate::domain::{Category, CategoryId, FolderColor, FolderEntry, FolderId, Tag, TagId, MAX_FAVORITES};
use crate::text::{
    ascii_lower, ascii_lower_char, ascii_lower_seq, chars_of, decimal, decimal_chars, push_char,
    push_str, string_from_chars, trim_chars, trimmed,
};

verus! {

/// Upper bound for the controlled one-level child import: a parent pick
/// yields at most this many direct children.
pub const MAX_ONE_LEVEL_IMPORT: usize = 100;

/// The hover text of the one-level import, shared by tests and the UI.
pub const ONE_LEVEL_IMPORT_MAX_LITERAL: &'static str = "max 100";

/// Display level of a management page.
#[derive(Debug, Clone, Copy, PartialEq, Eq, Structural)]
pub enum ManagePage {
    Folders,
    Categories,
    Tags,
}

/// Filter dimensions for the folder management list.
#[derive(Debug, Clone, PartialEq, Eq)]
pub struct FolderFilter {
    /// Name substring (original case; matching is ASCII-case-insensitive).
    pub name: String,
    /// `Some(id)` keeps only that category; the nil id keeps uncategorized
    /// records; `None` applies no category filter.
    pub category: Option<CategoryId>,
    /// `Some(true)` keeps enabled records, `Some(false)` disabled ones,
    /// `None` all.
    pub enabled: Option<bool>,
}

impl Default for FolderFilter {
    fn default() -> (r: FolderFilter)
        ensures
            r.name@.len() == 0,
            r.category is None,
            r.enabled is None,
    {
        FolderFilter { name: String::new(), category: None, enabled: None }
    }
}

/// Sort key for the folder management list.
#[derive(Debug, Clone, Copy, PartialEq, Eq, Structural)]
pub enum FolderSort {
    Name,
    RecentlyUsed,
    AddedTime,
}

/// Outcome of evaluating one prospective record (add or edit).
#[derive(Debug, Clone, PartialEq, Eq)]
pub enum CandidateVerdict {
    /// No problem; the candidate can be saved.
    Accepted,
    /// The path cannot be classified (empty or whitespace).
    InvalidPath,
    /// The candidate duplicates an existing record.
    Duplicate { existing_name: String },
}

/// What the user chose when a duplicate was detected.
#[derive(Debug, Clone, Copy, PartialEq, Eq, Structural)]
pub enum DuplicatePolicy {
    /// Abort (default: not added).
    Cancel,
    /// Open the existing record for editing.
    EditExisting,
    /// Keep the same path but store it under a different name.
    SaveAsDifferentName,
}

/// The pre-apply result of one folder candidate in a multi-add import.
#[derive(Debug, Clone, PartialEq, Eq)]
pub enum AddItemStatus {
    /// Ready to be added.
    Ready { resolved_name: String },
    /// Duplicate of the existing record `existing_name`.
    Duplicate { existing_name: String },
    /// Unusable input, reported per item and never fatal.
    Invalid,
}

/// The controlled one-level import offer for a parent pick.
#[derive(Debug, Clone, Copy, PartialEq, Eq, Structural)]
pub enum ChildImportOffer {
    /// Only the picked directory is imported.
    ParentOnly,
    /// Offer a choice between the parent and its direct children.
    Choose { child_count: usize },
}

/// What the user selected for a parent pick.
#[derive(Debug, Clone, Copy, PartialEq, Eq, Structural)]
pub enum ChildImportChoice {
    ParentOnly,
    DirectChildren,
}

/// Anonymous, actionable errors of management operations.
#[derive(Debug, Clone, Copy, PartialEq, Eq, Structural)]
pub enum ManageError {
    /// No document is loaded.
    NoData,
    /// The requested record does not exist (already removed).
    NotFound,
    /// The name violates the naming policy.
    InvalidName,
    /// The path fails classification (empty or whitespace).
    InvalidPath,
    /// The merge target is missing.
    MergeTargetMissing,
    /// Saving failed at the repository layer.
    SaveFailed,
    /// The path duplicates an existing record.
    Duplicate,
}

/// The name policy: two names are exact duplicates when they are equal after
/// trimming surrounding white space and folding ASCII case; the displayed
/// original is never changed.
#[derive(Debug, Clone)]
pub struct NamingPolicy;

impl Default for NamingPolicy {
    fn default() -> (r: NamingPolicy) {
        NamingPolicy
    }
}

/// Whether `a` and `b` are exact duplicates under the name policy.
pub open spec fn same_name(a: Seq<char>, b: Seq<char>) -> bool {
    ascii_lower_seq(trimmed(a)) == ascii_lower_seq(trimmed(b))
}

/// The normalized name: surrounding white space trimmed, inner white space
/// kept.
pub fn normalize_name(name: &str) -> (r: String)
    ensures
        r@ == trimmed(name@),
{
    let cs = chars_of(name);
    let t = trim_chars(&cs);
    string_from_chars(&t)
}

pub(crate) fn chars_equal_ignore_ascii_case(a: &Vec<char>, b: &Vec<char>) -> (r: bool)
    ensures
        r == (ascii_lower_seq(a@) == ascii_lower_seq(b@)),
{
    if a.len() != b.len() {
        assert(ascii_lower_seq(a@).len() != ascii_lower_seq(b@).len());
        return false;
    }
    for i in 0..a.len()
        invariant
            a@.len() == b@.len(),
            forall|k: int| 0 <= k < i ==> ascii_lower(a@[k]) == ascii_lower(b@[k]),
    {
        if ascii_lower_char(a[i]) != ascii_lower_char(b[i]) {
            assert(ascii_lower_seq(a@)[i as int] != ascii_lower_seq(b@)[i as int]);
            return false;
        }
    }
    assert(ascii_lower_seq(a@) =~= ascii_lower_seq(b@));
    true
}

/// Whether two names are exact duplicates under the name policy (see
/// [`same_name`]).
pub fn names_equal(a: &str, b: &str) -> (r: bool)
    ensures
        r == same_name(a@, b@),
{
    let ca = chars_of(a);
    let cb = chars_of(b);
    let ta = trim_chars(&ca);
    let tb = trim_chars(&cb);
    chars_equal_ignore_ascii_case(&ta, &tb)
}

/// Law: the name policy is an equivalence: reflexive, symmetric and
/// transitive.
pub proof fn lemma_same_name_equivalence(a: Seq<char>, b: Seq<char>, c: Seq<char>)
    ensures
        same_name(a, a),
        same_name(a, b) ==> same_name(b, a),
        same_name(a, b) && same_name(b, c) ==> same_name(a, c),
{
}

/// The ids of the favorite records among `folders`, in order.
pub open spec fn favorite_ids(folders: Seq<FolderEntry>) -> Seq<FolderId>
    decreases folders.len(),
{
    if folders.len() == 0 {
        seq![]
    } else if folders.last().favorite {
        favorite_ids(folders.drop_last()).push(folders.last().id)
    } else {
        favorite_ids(folders.drop_last())
    }
}

/// The favorites a change would use: the size of the union of the current
/// favorites and the nominees, each record counted once.
pub open spec fn favorites_used(folders: Seq<FolderEntry>, nominees: Seq<FolderId>) -> nat {
    favorite_ids(folders).to_set().union(nominees.to_set()).len()
}

proof fn lemma_favorite_ids_len(folders: Seq<FolderEntry>)
    ensures
        favorite_ids(folders).len() <= folders.len(),
    decreases folders.len(),
{
    if folders.len() > 0 {
        lemma_favorite_ids_len(folders.drop_last());
    }
}

/// Law: each record counts once: a nominee that is already a favorite or
/// already nominated adds nothing, any other nominee adds exactly one.
pub proof fn lemma_nominee_counts_once(folders: Seq<FolderEntry>, nominees: Seq<FolderId>, x: FolderId)
    ensures
        favorites_used(folders, nominees.push(x)) == favorites_used(folders, nominees) + if favorite_ids(folders).contains(x)
            || nominees.contains(x) {
            0nat
        } else {
            1nat
        },
{
    let f = favorite_ids(folders).to_set();
    vstd::seq_lib::seq_to_set_is_finite(favorite_ids(folders));
    vstd::seq_lib::seq_to_set_is_finite(nominees);
    let before = f.union(nominees.to_set());
    assert(nominees.push(x).to_set() =~= nominees.to_set().insert(x)) by {
        assert forall|y: FolderId| nominees.push(x).to_set().contains(y) <==> nominees.to_set().insert(x).contains(y) by {
            if nominees.push(x).contains(y) && y != x {
                let k = choose|k: int| 0 <= k < nominees.push(x).len() && nominees.push(x)[k] == y;
                assert(nominees[k] == y);
            }
            if nominees.contains(y) {
                let k = choose|k: int| 0 <= k < nominees.len() && nominees[k] == y;
                assert(nominees.push(x)[k] == y);
            }
            if y == x {
                assert(nominees.push(x)[nominees.len() as int] == x);
            }
        }
    }
    assert(f.union(nominees.push(x).to_set()) =~= before.insert(x));
    vstd::set_lib::lemma_set_union_finite_iff(f, nominees.to_set());
    assert(before.contains(x) == (favorite_ids(folders).contains(x) || nominees.contains(x)));
}

fn contains_id(ids: &Vec<FolderId>, id: FolderId) -> (r: bool)
    ensures
        r == ids@.contains(id),
{
    for i in 0..ids.len()
        invariant
            forall|k: int| 0 <= k < i ==> ids@[k] != id,
    {
        if ids[i] == id {
            return true;
        }
    }
    false
}

/// How many favorites a change would use, and whether that exceeds
/// `MAX_FAVORITES`. `nominee_ids` are the ids that end up favorite after the
/// change; the count is the size of the union of the current favorites and
/// the nominees, so each record counts once.
pub fn favorite_room(folders: &[FolderEntry], nominee_ids: &[FolderId]) -> (r: (usize, bool))
    requires
        folders@.len() + nominee_ids@.len() <= usize::MAX,
    ensures
        r.0 == favorites_used(folders@, nominee_ids@),
        r.1 == (favorites_used(folders@, nominee_ids@) > MAX_FAVORITES),
{
    let mut seen: Vec<FolderId> = Vec::new();
    for i in 0..folders.len()
        invariant
            seen@.no_duplicates(),
            seen@.to_set() == favorite_ids(folders@.take(i as int)).to_set(),
            seen@.len() <= i,
    {
        let ghost before = seen@;
        assert(folders@.take(i + 1).drop_last() == folders@.take(i as int));
        assert(folders@.take(i + 1).last() == folders@[i as int]);
        if folders[i].favorite && !contains_id(&seen, folders[i].id) {
            seen.push(folders[i].id);
        }
        proof {
            let x = folders@[i as int].id;
            let prev = favorite_ids(folders@.take(i as int));
            if folders@[i as int].favorite {
                assert(favorite_ids(folders@.take(i + 1)) == prev.push(x));
                assert(seen@.to_set() =~= prev.push(x).to_set()) by {
                    assert forall|y: FolderId| #[trigger] seen@.to_set().contains(y) <==> prev.push(x).to_set().contains(y) by {
                        if prev.push(x).contains(y) && y != x {
                            let k = choose|k: int| 0 <= k < prev.push(x).len() && prev.push(x)[k] == y;
                            assert(prev[k] == y);
                            assert(prev.to_set().contains(y));
                            assert(before.to_set().contains(y));
                            let m = choose|m: int| 0 <= m < before.len() && before[m] == y;
                            assert(seen@[m] == y);
                        }
                        if prev.contains(y) {
                            let k = choose|k: int| 0 <= k < prev.len() && prev[k] == y;
                            assert(prev.push(x)[k] == y);
                        }
                        if y == x {
                            assert(prev.push(x)[prev.len() as int] == x);
                            if seen@.len() > before.len() {
                                assert(seen@[before.len() as int] == x);
                            } else {
                                assert(before.contains(x));
                                let m = choose|m: int| 0 <= m < before.len() && before[m] == x;
                                assert(seen@[m] == x);
                            }
                        }
                        if seen@.contains(y) && y != x {
                            let m = choose|m: int| 0 <= m < seen@.len() && seen@[m] == y;
                            assert(before[m] == y);
                            assert(before.to_set().contains(y));
                            assert(prev.contains(y));
                            let k = choose|k: int| 0 <= k < prev.len() && prev[k] == y;
                            assert(prev.push(x)[k] == y);
                        }
                    }
                }
            } else {
                assert(favorite_ids(folders@.take(i + 1)) == prev);
            }
        }
    }
    assert(folders@.take(folders@.len() as int) == folders@);
    let ghost favs = favorite_ids(folders@).to_set();
    assert(nominee_ids@.take(0).to_set() =~= Set::<FolderId>::empty());
    assert(seen@.to_set() =~= favs.union(nominee_ids@.take(0).to_set()));
    for j in 0..nominee_ids.len()
        invariant
            seen@.no_duplicates(),
            favs == favorite_ids(folders@).to_set(),
            seen@.to_set() == favs.union(nominee_ids@.take(j as int).to_set()),
            seen@.len() <= folders@.len() + j,
            folders@.len() + nominee_ids@.len() <= usize::MAX,
    {
        let ghost before = seen@;
        let ghost prev = nominee_ids@.take(j as int);
        let x = nominee_ids[j];
        assert(nominee_ids@.take(j + 1) == prev.push(x));
        if !contains_id(&seen, x) {
            seen.push(x);
        }
        proof {
            assert(seen@.to_set() =~= favs.union(prev.push(x).to_set())) by {
                assert forall|y: FolderId| #[trigger] seen@.to_set().contains(y) <==> favs.union(prev.push(x).to_set()).contains(y) by {
                    if prev.push(x).contains(y) && y != x {
                        let k = choose|k: int| 0 <= k < prev.push(x).len() && prev.push(x)[k] == y;
                        assert(prev[k] == y);
                        assert(prev.to_set().contains(y));
                    }
                    if prev.contains(y) {
                        let k = choose|k: int| 0 <= k < prev.len() && prev[k] == y;
                        assert(prev.push(x)[k] == y);
                    }
                    if y == x {
                        assert(prev.push(x)[prev.len() as int] == x);
                    }
                    if before.contains(y) {
                        let m = choose|m: int| 0 <= m < before.len() && before[m] == y;
                        assert(seen@[m] == y);
                    }
                    if seen@.contains(y) && y != x {
                        let m = choose|m: int| 0 <= m < seen@.len() && seen@[m] == y;
                        assert(before[m] == y);
                        assert(before.to_set().contains(y));
                    }
                    if y == x && !before.contains(x) {
                        assert(seen@[before.len() as int] == x);
                    }
                    if favs.contains(y) || prev.to_set().contains(y) {
                        assert(before.to_set().contains(y));
                        let m = choose|m: int| 0 <= m < before.len() && before[m] == y;
                        assert(seen@[m] == y);
                    }
                    if y == x && before.contains(x) {
                        let m = choose|m: int| 0 <= m < before.len() && before[m] == x;
                        assert(seen@[m] == x);
                    }
                }
            }
        }
    }
    assert(nominee_ids@.take(nominee_ids@.len() as int) == nominee_ids@);
    proof {
        seen@.unique_seq_to_set();
    }
    let used = seen.len();
    (used, used > MAX_FAVORITES)
}

/// A fresh folder record from the dialog's inputs. `id` is a new id for an
/// add and the edited record's id for an edit; `created_at` is the current
/// time for an add and the record's own creation time for an edit; `now`
/// becomes the update time. The record starts unopened, in the default sort
/// position.
pub fn build_folder(
    id: FolderId,
    display_name: String,
    path: String,
    aliases: Vec<String>,
    category_id: Option<CategoryId>,
    tag_ids: Vec<TagId>,
    note: String,
    pinned: bool,
    favorite: bool,
    manual_weight: i16,
    enabled: bool,
    color: Option<FolderColor>,
    created_at: i64,
    now: i64,
) -> (r: FolderEntry)
    ensures
        r == (FolderEntry {
            id,
            display_name,
            aliases,
            path,
            enabled,
            favorite,
            pinned,
            manual_weight,
            category_id,
            tag_ids,
            note,
            color,
            sort_order: 0,
            created_at,
            updated_at: now,
            last_opened_at: None,
            open_count: 0,
        }),
{
    FolderEntry {
        id,
        display_name,
        aliases,
        path,
        enabled,
        favorite,
        pinned,
        manual_weight,
        category_id,
        tag_ids,
        note,
        color,
        sort_order: 0,
        created_at,
        updated_at: now,
        last_opened_at: None,
        open_count: 0,
    }
}

/// Whether a parent pick offers the one-level import: the setting is on and
/// the pick has at least one direct child.
pub fn child_import_offer(setting_enabled: bool, direct_child_count: usize) -> (r: ChildImportOffer)
    ensures
        r == if setting_enabled && direct_child_count > 0 {
            ChildImportOffer::Choose { child_count: direct_child_count }
        } else {
            ChildImportOffer::ParentOnly
        },
{
    if !setting_enabled {
        return ChildImportOffer::ParentOnly;
    }
    if direct_child_count == 0 {
        ChildImportOffer::ParentOnly
    } else {
        ChildImportOffer::Choose { child_count: direct_child_count }
    }
}

/// How many records an import choice brings in: the parent alone, or the
/// direct children capped at `MAX_ONE_LEVEL_IMPORT`.
pub fn clamp_child_import(count: usize, offer: ChildImportChoice) -> (r: usize)
    ensures
        r == match offer {
            ChildImportChoice::ParentOnly => 1,
            ChildImportChoice::DirectChildren => if count < MAX_ONE_LEVEL_IMPORT {
                count
            } else {
                MAX_ONE_LEVEL_IMPORT
            },
        },
{
    match offer {
        ChildImportChoice::ParentOnly => 1,
        ChildImportChoice::DirectChildren => if count < MAX_ONE_LEVEL_IMPORT {
            count
        } else {
            MAX_ONE_LEVEL_IMPORT
        },
    }
}

/// The hover text of the one-level import: `max ` and the limit.
pub fn child_import_hover(limit: usize) -> (r: String)
    ensures
        r@ == "max "@ + decimal(limit as nat),
{
    let mut r = String::new();
    push_str(&mut r, "max ");
    let digits = decimal_chars(limit as u64);
    let ghost start = r@;
    for i in 0..digits.len()
        invariant
            r@ == start + digits@.take(i as int),
    {
        push_char(&mut r, digits[i]);
        assert(digits@.take(i + 1) == digits@.take(i as int).push(digits@[i as int]));
    }
    assert(digits@.take(digits@.len() as int) == digits@);
    r
}

/// Whether `name` is acceptable as a category or tag name: non-empty after
/// trimming and at most `max_len` characters long.
pub fn valid_named_value(name: &str, max_len: usize) -> (r: bool)
    ensures
        r == (trimmed(name@).len() > 0 && trimmed(name@).len() <= max_len),
{
    let cs = chars_of(name);
    let t = trim_chars(&cs);
    t.len() > 0 && t.len() <= max_len
}

/// The first tag of `tags`, other than `target_id`, named like
/// `target_name` under the name policy.
pub open spec fn merge_match(tags: Seq<Tag>, target_id: TagId, target_name: Seq<char>) -> Option<TagId>
    decreases tags.len(),
{
    if tags.len() == 0 {
        None
    } else if tags[0].id != target_id && same_name(tags[0].name@, target_name) {
        Some(tags[0].id)
    } else {
        merge_match(tags.drop_first(), target_id, target_name)
    }
}

/// The merge target for tags: the first other tag named like
/// `target_name` (see [`merge_match`]), else `target_id` itself.
pub fn resolve_merge_target_id(tags: &[Tag], target_id: TagId, target_name: &str) -> (r: TagId)
    ensures
        r == match merge_match(tags@, target_id, target_name@) {
            Some(id) => id,
            None => target_id,
        },
{
    let mut i: usize = 0;
    assert(tags@.skip(0) == tags@);
    while i < tags.len()
        invariant
            i <= tags@.len(),
            merge_match(tags@, target_id, target_name@) == merge_match(tags@.skip(i as int), target_id, target_name@),
        decreases tags@.len() - i,
    {
        assert(tags@.skip(i as int).drop_first() == tags@.skip(i + 1));
        let tag = &tags[i];
        if tag.id != target_id && names_equal(tag.name.as_str(), target_name) {
            return tag.id;
        }
        i = i + 1;
    }
    target_id
}

/// How many of `folders` carry tag `t`.
pub open spec fn usage_count(folders: Seq<FolderEntry>, t: TagId) -> nat
    decreases folders.len(),
{
    if folders.len() == 0 {
        0
    } else if folders.last().tag_ids@.contains(t) {
        usage_count(folders.drop_last(), t) + 1
    } else {
        usage_count(folders.drop_last(), t)
    }
}

pub(crate) fn contains_tag(ids: &Vec<TagId>, id: TagId) -> (r: bool)
    ensures
        r == ids@.contains(id),
{
    for i in 0..ids.len()
        invariant
            forall|k: int| 0 <= k < i ==> ids@[k] != id,
    {
        if ids[i] == id {
            return true;
        }
    }
    false
}

/// Usage count of a tag: the folders referencing it.
pub fn tag_usage(folders: &[FolderEntry], tag_id: TagId) -> (r: usize)
    ensures
        r == usage_count(folders@, tag_id),
{
    let mut count: usize = 0;
    for i in 0..folders.len()
        invariant
            count == usage_count(folders@.take(i as int), tag_id),
            count <= i,
    {
        assert(folders@.take(i + 1).drop_last() == folders@.take(i as int));
        if contains_tag(&folders[i].tag_ids, tag_id) {
            count = count + 1;
        }
    }
    assert(folders@.take(folders@.len() as int) == folders@);
    count
}

/// One row of the management list, resolved from the document.
#[derive(Debug, Clone, PartialEq, Eq)]
pub struct FolderRow {
    pub id: FolderId,
    pub display_name: String,
    pub path: String,
    pub category_name: Option<String>,
    pub tag_names: Vec<String>,
    pub enabled: bool,
    pub pinned: bool,
    pub favorite: bool,
    /// When the folder was last opened (ms since the epoch), if ever.
    pub last_opened_at: Option<i64>,
    /// When the record was created (ms since the epoch).
    pub created_at: i64,
    pub manual_weight: i16,
    pub open_count: u64,
}

/// Whether `n` occurs as a contiguous run in `h`.
pub open spec fn occurs_in(h: Seq<char>, n: Seq<char>) -> bool {
    exists|i: int| 0 <= i && i + n.len() <= h.len() && #[trigger] h.subrange(i, i + n.len()) == n
}

/// Whether `f` passes the list filter: the name filter is empty or occurs
/// in the display name (ASCII case folded on both sides); the category
/// filter keeps that category (the nil id keeps uncategorized records); the
/// status filter keeps records with that enabled flag.
pub open spec fn row_kept(filter: FolderFilter, f: FolderEntry) -> bool {
    &&& filter.name@.len() == 0 || occurs_in(ascii_lower_seq(f.display_name@), ascii_lower_seq(filter.name@))
    &&& match filter.category {
        None => true,
        Some(c) => if c.value() == 0 {
            f.category_id is None
        } else {
            f.category_id == Some(c)
        },
    }
    &&& match filter.enabled {
        None => true,
        Some(e) => f.enabled == e,
    }
}

/// Indices (ascending) of the first `n` folders that pass the filter.
pub open spec fn kept_rows(filter: FolderFilter, folders: Seq<FolderEntry>, n: int) -> Seq<usize>
    decreases n,
{
    if n <= 0 {
        seq![]
    } else if row_kept(filter, folders[n - 1]) {
        kept_rows(filter, folders, n - 1).push((n - 1) as usize)
    } else {
        kept_rows(filter, folders, n - 1)
    }
}


/// The list order of `sort` between two records: by name (ASCII case
/// folded, then as written); by last use, most recent first and never-used
/// last, then by open count descending; or by creation time ascending.
pub open spec fn row_before(sort: FolderSort, a: FolderEntry, b: FolderEntry) -> bool {
    match sort {
        FolderSort::Name => {
            let la = ascii_lower_seq(a.display_name@);
            let lb = ascii_lower_seq(b.display_name@);
            lex_lt(la, lb) || (la == lb && lex_lt(a.display_name@, b.display_name@))
        },
        FolderSort::RecentlyUsed => {
            ||| (match (a.last_opened_at, b.last_opened_at) {
                (Some(x), Some(y)) => x > y,
                (Some(_), None) => true,
                _ => false,
            })
            ||| a.last_opened_at == b.last_opened_at && a.open_count > b.open_count
        },
        FolderSort::AddedTime => a.created_at < b.created_at,
    }
}

/// Whether folder `i` is listed before folder `j`: by [`row_before`], ties
/// keeping source order (a stable sort).
pub open spec fn list_before(folders: Seq<FolderEntry>, sort: FolderSort, i: usize, j: usize) -> bool {
    ||| row_before(sort, folders[i as int], folders[j as int])
    ||| !row_before(sort, folders[i as int], folders[j as int]) && !row_before(sort, folders[j as int], folders[i as int])
        && i < j
}

proof fn lemma_row_before_weak(sort: FolderSort, a: FolderEntry, b: FolderEntry, c: FolderEntry)
    ensures
        !row_before(sort, a, a),
        row_before(sort, a, b) ==> !row_before(sort, b, a),
        row_before(sort, a, b) && row_before(sort, b, c) ==> row_before(sort, a, c),
        !row_before(sort, a, b) && !row_before(sort, b, a) && !row_before(sort, b, c) && !row_before(sort, c, b)
            ==> !row_before(sort, a, c) && !row_before(sort, c, a),
{
    let la = ascii_lower_seq(a.display_name@);
    let lb = ascii_lower_seq(b.display_name@);
    let lc = ascii_lower_seq(c.display_name@);
    lemma_lex_lt_order(la, lb, lc);
    lemma_lex_lt_order(lc, lb, la);
    lemma_lex_lt_order(la, lc, lb);
    lemma_lex_lt_order(lb, la, lc);
    lemma_lex_lt_order(lb, lc, la);
    lemma_lex_lt_order(lc, la, lb);
    let na = a.display_name@;
    let nb = b.display_name@;
    let nc = c.display_name@;
    lemma_lex_lt_order(na, nb, nc);
    lemma_lex_lt_order(nc, nb, na);
    lemma_lex_lt_order(na, nc, nb);
    lemma_lex_lt_order(nb, na, nc);
    lemma_lex_lt_order(nb, nc, na);
    lemma_lex_lt_order(nc, na, nb);
}

/// Law: the list order is a strict total order on distinct indices.
pub proof fn lemma_list_before_total(folders: Seq<FolderEntry>, sort: FolderSort, i: usize, j: usize, k: usize)
    ensures
        !list_before(folders, sort, i, i),
        list_before(folders, sort, i, j) ==> !list_before(folders, sort, j, i),
        i != j ==> list_before(folders, sort, i, j) || list_before(folders, sort, j, i),
        list_before(folders, sort, i, j) && list_before(folders, sort, j, k) ==> list_before(folders, sort, i, k),
{
    let a = folders[i as int];
    let b = folders[j as int];
    let c = folders[k as int];
    lemma_row_before_weak(sort, a, b, c);
    lemma_row_before_weak(sort, b, c, a);
    lemma_row_before_weak(sort, c, a, b);
    lemma_row_before_weak(sort, a, c, b);
    lemma_row_before_weak(sort, b, a, c);
    lemma_row_before_weak(sort, c, b, a);
}

/// `order` lists exactly the indices of `kept`, strictly ordered by
/// [`list_before`].
pub open spec fn list_order(folders: Seq<FolderEntry>, sort: FolderSort, kept: Seq<usize>, order: Seq<usize>) -> bool {
    &&& order.len() == kept.len()
    &&& forall|x: usize| order.contains(x) <==> kept.contains(x)
    &&& forall|a: int, b: int| 0 <= a < b < order.len() ==> list_before(folders, sort, #[trigger] order[a], #[trigger] order[b])
}

/// Law: the list order is deterministic: two arrangements of the kept
/// folders that both follow [`list_before`] are equal.
pub proof fn lemma_list_order_unique(folders: Seq<FolderEntry>, sort: FolderSort, kept: Seq<usize>, o1: Seq<usize>, o2: Seq<usize>)
    requires
        list_order(folders, sort, kept, o1),
        list_order(folders, sort, kept, o2),
    ensures
        o1 == o2,
{
    let lt = |i: usize, j: usize| list_before(folders, sort, i, j);
    assert forall|x: usize| !#[trigger] lt(x, x) by {
        lemma_list_before_total(folders, sort, x, x, x);
    }
    assert forall|x: usize, y: usize| #[trigger] lt(x, y) implies !lt(y, x) by {
        lemma_list_before_total(folders, sort, x, y, x);
    }
    assert(strictly_ordered(lt, o1));
    assert(strictly_ordered(lt, o2));
    lemma_strictly_ordered_unique(lt, o1, o2);
}

/// The name of the first category with id `id`, if any.
pub open spec fn category_name_of(categories: Seq<Category>, id: Option<CategoryId>) -> Option<Seq<char>>
    decreases categories.len(),
{
    if categories.len() == 0 {
        None
    } else if Some(categories[0].id) == id {
        Some(categories[0].name@)
    } else {
        category_name_of(categories.drop_first(), id)
    }
}

/// The names of the tags (in tag-list order) whose id is among `ids`.
pub open spec fn tag_names_of(tags: Seq<Tag>, ids: Seq<TagId>) -> Seq<Seq<char>>
    decreases tags.len(),
{
    if tags.len() == 0 {
        seq![]
    } else if ids.contains(tags.last().id) {
        tag_names_of(tags.drop_last(), ids).push(tags.last().name@)
    } else {
        tag_names_of(tags.drop_last(), ids)
    }
}

/// `r` is the row of `f`: its fields, its category's name and its tags'
/// names.
pub open spec fn row_of(r: FolderRow, f: FolderEntry, categories: Seq<Category>, tags: Seq<Tag>) -> bool {
    &&& r.id == f.id
    &&& r.display_name@ == f.display_name@
    &&& r.path@ == f.path@
    &&& match r.category_name {
        Some(n) => category_name_of(categories, f.category_id) == Some(n@),
        None => category_name_of(categories, f.category_id) is None,
    }
    &&& r.tag_names@.len() == tag_names_of(tags, f.tag_ids@).len()
    &&& forall|k: int| 0 <= k < r.tag_names@.len() ==> #[trigger] r.tag_names@[k]@ == tag_names_of(tags, f.tag_ids@)[k]
    &&& r.enabled == f.enabled
    &&& r.pinned == f.pinned
    &&& r.favorite == f.favorite
    &&& r.last_opened_at == f.last_opened_at
    &&& r.created_at == f.created_at
    &&& r.manual_weight == f.manual_weight
    &&& r.open_count == f.open_count
}

fn occurs_in_chars(h: &Vec<char>, n: &Vec<char>) -> (r: bool)
    ensures
        r == occurs_in(h@, n@),
{
    let hl = h.len();
    let nl = n.len();
    if nl == 0 {
        assert(h@.subrange(0int, 0int + n@.len()) =~= n@);
        return true;
    }
    if nl > hl {
        return false;
    }
    let last = hl - nl;
    let mut i: usize = 0;
    while i <= last
        invariant
            hl == h@.len(),
            nl == n@.len(),
            0 < nl <= hl,
            last == hl - nl,
            i <= last + 1,
            forall|j: int| 0 <= j < i ==> #[trigger] h@.subrange(j, j + n@.len()) != n@,
        decreases last + 1 - i,
    {
        let mut k: usize = 0;
        let mut same = true;
        while k < nl
            invariant
                hl == h@.len(),
                nl == n@.len(),
                i <= last,
                last == hl - nl,
                k <= nl,
                same == (forall|m: int| 0 <= m < k ==> h@[i + m] == n@[m]),
            decreases nl - k,
        {
            if h[i + k] != n[k] {
                same = false;
            }
            k = k + 1;
        }
        if same {
            assert(h@.subrange(i as int, i + n@.len()) =~= n@);
            return true;
        }
        assert(h@.subrange(i as int, i + n@.len()) != n@) by {
            let m = choose|m: int| 0 <= m < n@.len() && h@[i + m] != n@[m];
            assert(h@.subrange(i as int, i + n@.len())[m] != n@[m]);
        }
        i = i + 1;
    }
    proof {
        if occurs_in(h@, n@) {
            let j = choose|j: int| 0 <= j && j + n@.len() <= h@.len() && #[trigger] h@.subrange(j, j + n@.len()) == n@;
            assert(j <= last);
        }
    }
    false
}

fn lower_chars(s: &Vec<char>) -> (r: Vec<char>)
    ensures
        r@ == ascii_lower_seq(s@),
{
    let mut r: Vec<char> = Vec::new();
    for i in 0..s.len()
        invariant
            r@ == ascii_lower_seq(s@.take(i as int)),
    {
        r.push(ascii_lower_char(s[i]));
        assert(ascii_lower_seq(s@.take(i + 1)) =~= ascii_lower_seq(s@.take(i as int)).push(ascii_lower(s@[i as int])));
    }
    assert(s@.take(s@.len() as int) == s@);
    r
}


fn name_before(a: &FolderEntry, b: &FolderEntry) -> (r: bool)
    ensures
        r == row_before(FolderSort::Name, *a, *b),
{
    let na = chars_of(a.display_name.as_str());
    let nb = chars_of(b.display_name.as_str());
    let la = lower_chars(&na);
    let lb = lower_chars(&nb);
    if lex_less(&la, &lb) {
        return true;
    }
    if !crate::text::chars_equal(&la, &lb) {
        return false;
    }
    lex_less(&na, &nb)
}

fn row_precedes(sort: FolderSort, a: &FolderEntry, b: &FolderEntry) -> (r: bool)
    ensures
        r == row_before(sort, *a, *b),
{
    match sort {
        FolderSort::Name => name_before(a, b),
        FolderSort::RecentlyUsed => {
            let newer = match (a.last_opened_at, b.last_opened_at) {
                (Some(x), Some(y)) => x > y,
                (Some(_), None) => true,
                _ => false,
            };
            newer || (a.last_opened_at == b.last_opened_at && a.open_count > b.open_count)
        },
        FolderSort::AddedTime => a.created_at < b.created_at,
    }
}

fn listed_before(folders: &[FolderEntry], sort: FolderSort, i: usize, j: usize) -> (r: bool)
    requires
        i < folders@.len(),
        j < folders@.len(),
    ensures
        r == list_before(folders@, sort, i, j),
{
    let ij = row_precedes(sort, &folders[i], &folders[j]);
    if ij {
        return true;
    }
    let ji = row_precedes(sort, &folders[j], &folders[i]);
    !ji && i < j
}

/// Sorts the distinct folder indices `kept` by [`list_before`].
fn sort_rows(folders: &[FolderEntry], sort: FolderSort, kept: &Vec<usize>) -> (r: Vec<usize>)
    requires
        forall|k: int| 0 <= k < kept@.len() ==> #[trigger] kept@[k] < folders@.len(),
        forall|a: int, b: int| 0 <= a < b < kept@.len() ==> #[trigger] kept@[a] != #[trigger] kept@[b],
    ensures
        list_order(folders@, sort, kept@, r@),
        forall|k: int| 0 <= k < r@.len() ==> #[trigger] r@[k] < folders@.len(),
{
    let mut r: Vec<usize> = Vec::new();
    for i in 0..kept.len()
        invariant
            forall|k: int| 0 <= k < kept@.len() ==> #[trigger] kept@[k] < folders@.len(),
            forall|a: int, b: int| 0 <= a < b < kept@.len() ==> #[trigger] kept@[a] != #[trigger] kept@[b],
            r@.len() == i,
            forall|x: usize| r@.contains(x) <==> kept@.take(i as int).contains(x),
            forall|k: int| 0 <= k < r@.len() ==> #[trigger] r@[k] < folders@.len(),
            forall|a: int, b: int| 0 <= a < b < r@.len() ==> list_before(folders@, sort, #[trigger] r@[a], #[trigger] r@[b]),
    {
        let x = kept[i];
        assert(kept@.take(i + 1) == kept@.take(i as int).push(x));
        assert forall|k: int| 0 <= k < r@.len() implies #[trigger] r@[k] != x by {
            assert(r@.contains(r@[k]));
            let m = choose|m: int| 0 <= m < i && kept@.take(i as int)[m] == r@[k];
            assert(kept@[m] == r@[k]);
        }
        let mut p: usize = 0;
        while p < r.len() && !listed_before(folders, sort, x, r[p])
            invariant
                0 <= p <= r@.len(),
                x == kept@[i as int],
                x < folders@.len(),
                forall|k: int| 0 <= k < r@.len() ==> #[trigger] r@[k] < folders@.len(),
                forall|k: int| 0 <= k < p ==> !list_before(folders@, sort, x, #[trigger] r@[k]),
            decreases r@.len() - p,
        {
            p = p + 1;
        }
        let ghost before = r@;
        proof {
            assert forall|k: int| 0 <= k < p implies list_before(folders@, sort, #[trigger] before[k], x) by {
                lemma_list_before_total(folders@, sort, before[k], x, x);
            }
            assert forall|k: int| p <= k < before.len() implies list_before(folders@, sort, x, #[trigger] before[k]) by {
                if k > p {
                    assert(list_before(folders@, sort, before[p as int], before[k]));
                    lemma_list_before_total(folders@, sort, x, before[p as int], before[k]);
                }
            }
            before.insert_ensures(p as int, x);
        }
        r.insert(p, x);
        proof {
            let after = r@;
            assert(after == before.insert(p as int, x));
            assert forall|a: int, b: int| 0 <= a < b < after.len() implies list_before(folders@, sort, #[trigger] after[a], #[trigger] after[b]) by {
                if b < p {
                    assert(after[a] == before[a] && after[b] == before[b]);
                } else if b == p {
                    assert(after[a] == before[a]);
                } else if a < p {
                    assert(after[a] == before[a] && after[b] == before[b - 1]);
                    lemma_list_before_total(folders@, sort, before[a], x, before[b - 1]);
                } else if a == p {
                    assert(after[b] == before[b - 1]);
                } else {
                    assert(after[a] == before[a - 1] && after[b] == before[b - 1]);
                }
            }
            assert forall|k: int| 0 <= k < after.len() implies #[trigger] after[k] < folders@.len() by {
                if k < p {
                    assert(after[k] == before[k]);
                } else if k > p {
                    assert(after[k] == before[k - 1]);
                }
            }
            assert forall|y: usize| after.contains(y) <==> kept@.take(i + 1).contains(y) by {
                if after.contains(y) {
                    let k = choose|k: int| 0 <= k < after.len() && after[k] == y;
                    if k < p {
                        assert(before[k] == y);
                        assert(before.contains(y));
                    } else if k > p {
                        assert(before[k - 1] == y);
                        assert(before.contains(y));
                    }
                    if k != p {
                        assert(kept@.take(i as int).contains(y));
                        let m = choose|m: int| 0 <= m < i && kept@.take(i as int)[m] == y;
                        assert(kept@.take(i + 1)[m] == y);
                    } else {
                        assert(kept@.take(i + 1)[i as int] == y);
                    }
                }
                if kept@.take(i + 1).contains(y) {
                    if y != x {
                        let m = choose|m: int| 0 <= m < i + 1 && #[trigger] kept@.take(i + 1)[m] == y;
                        assert(m != i);
                        assert(kept@.take(i as int)[m] == y);
                        assert(kept@.take(i as int).contains(y));
                        assert(before.contains(y));
                        let k = choose|k: int| 0 <= k < before.len() && before[k] == y;
                        if k < p {
                            assert(after[k] == y);
                        } else {
                            assert(after[k + 1] == y);
                        }
                    } else {
                        assert(after[p as int] == y);
                    }
                }
            }
        }
    }
    assert(kept@.take(kept@.len() as int) == kept@);
    r
}

proof fn lemma_kept_rows_ordered(filter: FolderFilter, folders: Seq<FolderEntry>, n: int)
    requires
        0 <= n <= usize::MAX,
    ensures
        forall|k: int| 0 <= k < kept_rows(filter, folders, n).len() ==> #[trigger] kept_rows(filter, folders, n)[k] < n,
        forall|a: int, b: int| 0 <= a < b < kept_rows(filter, folders, n).len()
            ==> #[trigger] kept_rows(filter, folders, n)[a] < #[trigger] kept_rows(filter, folders, n)[b],
    decreases n,
{
    if n > 0 {
        lemma_kept_rows_ordered(filter, folders, n - 1);
        let prev = kept_rows(filter, folders, n - 1);
        if row_kept(filter, folders[n - 1]) {
            assert(kept_rows(filter, folders, n) == prev.push((n - 1) as usize));
        } else {
            assert(kept_rows(filter, folders, n) == prev);
        }
    }
}

fn keeps(filter: &FolderFilter, folder: &FolderEntry) -> (r: bool)
    ensures
        r == row_kept(*filter, *folder),
{
    let wanted_raw = chars_of(filter.name.as_str());
    let name_ok = if wanted_raw.len() == 0 {
        true
    } else {
        let wanted = lower_chars(&wanted_raw);
        let name = lower_chars(&chars_of(folder.display_name.as_str()));
        occurs_in_chars(&name, &wanted)
    };
    let category_ok = match filter.category {
        None => true,
        Some(expected) => if expected.as_u128() == 0 {
            folder.category_id.is_none()
        } else {
            folder.category_id == Some(expected)
        },
    };
    let status_ok = match filter.enabled {
        None => true,
        Some(enabled) => folder.enabled == enabled,
    };
    name_ok && category_ok && status_ok
}

fn category_name(categories: &[Category], id: Option<CategoryId>) -> (r: Option<String>)
    ensures
        match r {
            Some(n) => category_name_of(categories@, id) == Some(n@),
            None => category_name_of(categories@, id) is None,
        },
{
    let mut i: usize = 0;
    assert(categories@.skip(0) == categories@);
    while i < categories.len()
        invariant
            i <= categories@.len(),
            category_name_of(categories@, id) == category_name_of(categories@.skip(i as int), id),
        decreases categories@.len() - i,
    {
        assert(categories@.skip(i as int).drop_first() == categories@.skip(i + 1));
        if Some(categories[i].id) == id {
            return Some(categories[i].name.clone());
        }
        i = i + 1;
    }
    None
}

fn tag_names(tags: &[Tag], ids: &Vec<TagId>) -> (r: Vec<String>)
    ensures
        r@.len() == tag_names_of(tags@, ids@).len(),
        forall|k: int| 0 <= k < r@.len() ==> #[trigger] r@[k]@ == tag_names_of(tags@, ids@)[k],
{
    let mut r: Vec<String> = Vec::new();
    for i in 0..tags.len()
        invariant
            r@.len() == tag_names_of(tags@.take(i as int), ids@).len(),
            forall|k: int| 0 <= k < r@.len() ==> #[trigger] r@[k]@ == tag_names_of(tags@.take(i as int), ids@)[k],
    {
        assert(tags@.take(i + 1).drop_last() == tags@.take(i as int));
        if contains_tag(ids, tags[i].id) {
            r.push(tags[i].name.clone());
        }
    }
    assert(tags@.take(tags@.len() as int) == tags@);
    r
}

fn build_row(folder: &FolderEntry, categories: &[Category], tags: &[Tag]) -> (r: FolderRow)
    ensures
        row_of(r, *folder, categories@, tags@),
{
    FolderRow {
        id: folder.id,
        display_name: folder.display_name.clone(),
        path: folder.path.clone(),
        category_name: category_name(categories, folder.category_id),
        tag_names: tag_names(tags, &folder.tag_ids),
        enabled: folder.enabled,
        pinned: folder.pinned,
        favorite: folder.favorite,
        last_opened_at: folder.last_opened_at,
        created_at: folder.created_at,
        manual_weight: folder.manual_weight,
        open_count: folder.open_count,
    }
}

/// The management list: the rows of the folders that pass `filter`, in the
/// order of `sort` (ties keep source order), each resolved with its
/// category's and tags' names.
pub fn folder_rows(folders: &[FolderEntry], categories: &[Category], tags: &[Tag], filter: &FolderFilter, sort: FolderSort) -> (r: Vec<FolderRow>)
    ensures
        exists|order: Seq<usize>| #[trigger] list_order(folders@, sort, kept_rows(*filter, folders@, folders@.len() as int), order)
            && r@.len() == order.len()
            && forall|k: int| 0 <= k < order.len() ==> row_of(#[trigger] r@[k], folders@[order[k] as int], categories@, tags@),
{
    let n = folders.len();
    let mut kept: Vec<usize> = Vec::new();
    for i in 0..n
        invariant
            n == folders@.len(),
            kept@ == kept_rows(*filter, folders@, i as int),
    {
        if keeps(filter, &folders[i]) {
            kept.push(i);
        }
    }
    proof {
        lemma_kept_rows_ordered(*filter, folders@, n as int);
    }
    let order = sort_rows(folders, sort, &kept);
    let mut rows: Vec<FolderRow> = Vec::new();
    for k in 0..order.len()
        invariant
            forall|j: int| 0 <= j < order@.len() ==> #[trigger] order@[j] < folders@.len(),
            rows@.len() == k,
            forall|j: int| 0 <= j < k ==> row_of(#[trigger] rows@[j], folders@[order@[j] as int], categories@, tags@),
    {
        rows.push(build_row(&folders[order[k]], categories, tags));
    }
    assert(list_order(folders@, sort, kept_rows(*filter, folders@, folders@.len() as int), order@));
    rows
}

/// The records that `path` would duplicate: those other than `exclude_id`
/// naming the same folder.
pub open spec fn duplicates_candidate(f: FolderEntry, path: Seq<char>, exclude_id: Option<FolderId>) -> bool {
    exclude_id != Some(f.id) && same_path(f.path@, path)
}

/// Whether `path` can be saved among `folders` (excluding the record being
/// edited): an unclassifiable path is `InvalidPath`; a path naming the same
/// folder as a record is `Duplicate`, naming the first such record; anything
/// else is `Accepted`. Folders offline or missing on disk are still valid.
pub fn evaluate_candidate(path: &str, folders: &[FolderEntry], exclude_id: Option<FolderId>) -> (r: CandidateVerdict)
    ensures
        match r {
            CandidateVerdict::InvalidPath => path_key(path@) is None,
            CandidateVerdict::Accepted => path_key(path@) is Some
                && first_index(folders@, |f: FolderEntry| duplicates_candidate(f, path@, exclude_id)) is None,
            CandidateVerdict::Duplicate { existing_name } => path_key(path@) is Some
                && (first_index(folders@, |f: FolderEntry| duplicates_candidate(f, path@, exclude_id)) matches Some(k)
                && existing_name@ == folders@[k].display_name@),
        },
{
    if path_key_of(path).is_none() {
        return CandidateVerdict::InvalidPath;
    }
    for i in 0..folders.len()
        invariant
            path_key(path@) is Some,
            forall|j: int| 0 <= j < i ==> !duplicates_candidate(#[trigger] folders@[j], path@, exclude_id),
    {
        let excluded = match exclude_id {
            Some(id) => id == folders[i].id,
            None => false,
        };
        if !excluded && paths_match(folders[i].path.as_str(), path) {
            proof {
                let p = |f: FolderEntry| duplicates_candidate(f, path@, exclude_id);
                assert forall|j: int| 0 <= j < i implies !p(#[trigger] folders@[j]) by {}
                lemma_first_index(folders@, p, i as int);
            }
            return CandidateVerdict::Duplicate { existing_name: folders[i].display_name.clone() };
        }
    }
    proof {
        let p = |f: FolderEntry| duplicates_candidate(f, path@, exclude_id);
        assert forall|j: int| 0 <= j < folders@.len() implies !p(#[trigger] folders@[j]) by {}
        lemma_first_index(folders@, p, folders@.len() as int);
    }
    CandidateVerdict::Accepted
}

/// The display name suggested for a raw path: its last component, or the
/// trimmed path when it has none.
pub fn suggested_display_name(path: &str) -> (r: String)
    ensures
        r@ == match leaf_name(path@) {
            Some(leaf) => leaf,
            None => trimmed(path@),
        },
{
    match leaf_name_of(path) {
        Some(leaf) => leaf,
        None => string_from_chars(&trim_chars(&chars_of(path))),
    }
}

/// Whether a record of `existing` names the same folder as `raw`.
pub open spec fn names_recorded_folder(existing: Seq<FolderEntry>, raw: Seq<char>) -> bool {
    exists|k: int| 0 <= k < existing.len() && same_path(#[trigger] existing[k].path@, raw)
}

/// The keys of the candidates before position `n` that a batch preview marks
/// ready: classifiable, not naming a recorded folder and not repeating an
/// earlier ready key.
pub open spec fn batch_seen(candidates: Seq<String>, existing: Seq<FolderEntry>, n: int) -> Seq<Seq<char>>
    decreases n,
{
    if n <= 0 {
        seq![]
    } else {
        let prev = batch_seen(candidates, existing, n - 1);
        let raw = candidates[n - 1]@;
        match path_key(raw) {
            Some(key) => if names_recorded_folder(existing, raw) || prev.contains(key) {
                prev
            } else {
                prev.push(key)
            },
            None => prev,
        }
    }
}

/// `item` is the preview of `raw` given the keys already marked ready: an
/// unclassifiable path is `Invalid`; one naming a recorded folder or
/// repeating a ready key is `Duplicate`, naming the first recorded folder it
/// names (else the first of `existing_names`, else nothing); anything else is
/// `Ready` under its suggested display name.
pub open spec fn batch_item_is(item: AddItemStatus, raw: Seq<char>, existing: Seq<FolderEntry>, existing_names: Seq<String>, seen: Seq<Seq<char>>) -> bool {
    match path_key(raw) {
        None => item is Invalid,
        Some(key) => if names_recorded_folder(existing, raw) || seen.contains(key) {
            item matches AddItemStatus::Duplicate { existing_name } && existing_name@ == match first_index(existing, |f: FolderEntry| same_path(f.path@, raw)) {
                Some(k) => existing[k].display_name@,
                None => if existing_names.len() > 0 {
                    existing_names[0]@
                } else {
                    seq![]
                },
            }
        } else {
            item matches AddItemStatus::Ready { resolved_name } && resolved_name@ == match leaf_name(raw) {
                Some(leaf) => leaf,
                None => trimmed(raw),
            }
        },
    }
}

/// Whether one of `keys` equals `key`.
fn key_listed(keys: &Vec<Vec<char>>, key: &Vec<char>) -> (r: bool)
    ensures
        r == keys@.map_values(|v: Vec<char>| v@).contains(key@),
{
    let ghost views = keys@.map_values(|v: Vec<char>| v@);
    for i in 0..keys.len()
        invariant
            views == keys@.map_values(|v: Vec<char>| v@),
            forall|j: int| 0 <= j < i ==> #[trigger] views[j] != key@,
    {
        if crate::text::chars_equal(&keys[i], key) {
            assert(views[i as int] == key@);
            return true;
        }
    }
    false
}

/// The preview of adding `candidates` to the records `existing`, item by
/// item (see [`batch_item_is`]), catching paths repeated within the batch.
pub fn preview_batch(candidates: &[String], existing_folders: &[FolderEntry], existing_names: &[String]) -> (r: Vec<AddItemStatus>)
    ensures
        r@.len() == candidates@.len(),
        forall|k: int| 0 <= k < candidates@.len() ==> batch_item_is(#[trigger] r@[k], candidates@[k]@, existing_folders@, existing_names@, batch_seen(candidates@, existing_folders@, k)),
{
    let mut r: Vec<AddItemStatus> = Vec::new();
    let mut seen: Vec<Vec<char>> = Vec::new();
    assert(seen@.map_values(|v: Vec<char>| v@) =~= Seq::<Seq<char>>::empty());
    for i in 0..candidates.len()
        invariant
            r@.len() == i,
            seen@.map_values(|v: Vec<char>| v@) == batch_seen(candidates@, existing_folders@, i as int),
            forall|k: int| 0 <= k < i ==> batch_item_is(#[trigger] r@[k], candidates@[k]@, existing_folders@, existing_names@, batch_seen(candidates@, existing_folders@, k)),
    {
        let raw = candidates[i].as_str();
        match path_key_of(raw) {
            None => {
                r.push(AddItemStatus::Invalid);
            },
            Some(key) => {
                let mut first: Option<usize> = None;
                let mut j: usize = 0;
                while j < existing_folders.len()
                    invariant
                        0 <= j <= existing_folders@.len(),
                        first is None ==> forall|m: int| 0 <= m < j ==> !same_path(#[trigger] existing_folders@[m].path@, raw@),
                        first matches Some(m) ==> m < existing_folders@.len() && same_path(existing_folders@[m as int].path@, raw@)
                            && forall|q: int| 0 <= q < m ==> !same_path(#[trigger] existing_folders@[q].path@, raw@),
                    decreases existing_folders@.len() - j,
                {
                    if first.is_none() && paths_match(existing_folders[j].path.as_str(), raw) {
                        first = Some(j);
                    }
                    j = j + 1;
                }
                proof {
                    let p = |f: FolderEntry| same_path(f.path@, raw@);
                    match first {
                        Some(m) => {
                            assert forall|q: int| 0 <= q < m implies !p(#[trigger] existing_folders@[q]) by {}
                            lemma_first_index(existing_folders@, p, m as int);
                        },
                        None => {
                            assert forall|q: int| 0 <= q < existing_folders@.len() implies !p(#[trigger] existing_folders@[q]) by {}
                            lemma_first_index(existing_folders@, p, existing_folders@.len() as int);
                        },
                    }
                }
                let repeated = key_listed(&seen, &key);
                if first.is_some() || repeated {
                    let existing_name = match first {
                        Some(m) => existing_folders[m].display_name.clone(),
                        None => if existing_names.len() > 0 {
                            existing_names[0].clone()
                        } else {
                            String::new()
                        },
                    };
                    r.push(AddItemStatus::Duplicate { existing_name });
                } else {
                    let ghost before = seen@;
                    seen.push(key);
                    assert(seen@.map_values(|v: Vec<char>| v@) =~= before.map_values(|v: Vec<char>| v@).push(path_key(raw@)->0));
                    r.push(AddItemStatus::Ready { resolved_name: suggested_display_name(raw) });
                }
            },
        }
    }
    r
}

} // verus!
