//! Management dialog state: the folder draft the add/edit dialog works on,
//! and the rows and notices of the management page.

use vstd::prelude::*;

use std::path::PathBuf;

use crate::domain::{
    AppData, Category, CategoryId, FolderColor, FolderEntry, FolderId, Tag, TagId, MAX_CATEGORY_NAME_LEN, MAX_MANUAL_WEIGHT, MAX_TAG_NAME_LEN,
    MIN_MANUAL_WEIGHT,
};
use crate::path_semantics::leaf_name;
use crate::presentation::management::{
    build_folder, chars_equal_ignore_ascii_case, duplicates_candidate, evaluate_candidate, normalize_name, suggested_display_name,
    batch_item_is, batch_seen, child_import_offer, merge_match, names_equal, names_recorded_folder, preview_batch, AddItemStatus,
    ChildImportChoice, ChildImportOffer, MAX_ONE_LEVEL_IMPORT, resolve_merge_target_id, same_name, tag_usage, usage_count, valid_named_value, CandidateVerdict,
    DuplicatePolicy, FolderFilter, FolderRow, FolderSort,
};
use crate::order::{first_index, lemma_first_index, lemma_first_index_none};
use crate::path_semantics::{path_key, path_key_of};
use crate::storage::location::{join_name, joined_path, path_of, text_path};
use crate::storage::import_export::{copy_folder, same_folder};
use crate::text::{ascii_lower_seq, chars_of, string_from_chars, trim_chars, trimmed};

verus! {

/// The add/edit dialog's fields.
#[derive(Debug, Clone, PartialEq, Eq)]
pub struct FolderDraft {
    /// `Some(id)` when editing an existing record; `None` when adding.
    pub id: Option<FolderId>,
    pub display_name: String,
    pub path: String,
    pub aliases: Vec<String>,
    pub category_id: Option<CategoryId>,
    pub tag_ids: Vec<TagId>,
    pub note: String,
    pub pinned: bool,
    pub favorite: bool,
    pub manual_weight: i16,
    pub enabled: bool,
    pub color: Option<FolderColor>,
}

fn clone_strings(v: &Vec<String>) -> (r: Vec<String>)
    ensures
        r@.len() == v@.len(),
        forall|k: int| 0 <= k < v@.len() ==> #[trigger] r@[k]@ == v@[k]@,
{
    let mut r: Vec<String> = Vec::new();
    for i in 0..v.len()
        invariant
            r@.len() == i,
            forall|k: int| 0 <= k < i ==> #[trigger] r@[k]@ == v@[k]@,
    {
        r.push(v[i].clone());
    }
    r
}

fn clone_tag_ids(v: &Vec<TagId>) -> (r: Vec<TagId>)
    ensures
        r@ == v@,
{
    let mut r: Vec<TagId> = Vec::new();
    for i in 0..v.len()
        invariant
            r@ == v@.take(i as int),
    {
        r.push(v[i]);
        assert(v@.take(i + 1) == v@.take(i as int).push(v@[i as int]));
    }
    assert(v@.take(v@.len() as int) == v@);
    r
}

impl FolderDraft {
    /// The draft of a new record at `path`: the suggested display name of
    /// the path, no aliases, category, tags or note, not pinned, not a
    /// favorite, weight 0, enabled, no colour.
    pub fn for_add(path: String) -> (r: FolderDraft)
        ensures
            r.id is None,
            r.display_name@ == match leaf_name(path@) {
                Some(leaf) => leaf,
                None => trimmed(path@),
            },
            r.path == path,
            r.aliases@.len() == 0,
            r.category_id is None,
            r.tag_ids@.len() == 0,
            r.note@.len() == 0,
            !r.pinned,
            !r.favorite,
            r.manual_weight == 0,
            r.enabled,
            r.color is None,
    {
        let display_name = suggested_display_name(path.as_str());
        FolderDraft {
            id: None,
            display_name,
            path,
            aliases: Vec::new(),
            category_id: None,
            tag_ids: Vec::new(),
            note: String::new(),
            pinned: false,
            favorite: false,
            manual_weight: 0,
            enabled: true,
            color: None,
        }
    }

    /// The draft that edits `entry`: every dialog field as the record holds
    /// it.
    pub fn for_edit(entry: &FolderEntry) -> (r: FolderDraft)
        ensures
            r.id == Some(entry.id),
            r.display_name@ == entry.display_name@,
            r.path@ == entry.path@,
            r.aliases@.len() == entry.aliases@.len(),
            forall|k: int| 0 <= k < entry.aliases@.len() ==> #[trigger] r.aliases@[k]@ == entry.aliases@[k]@,
            r.category_id == entry.category_id,
            r.tag_ids@ == entry.tag_ids@,
            r.note@ == entry.note@,
            r.pinned == entry.pinned,
            r.favorite == entry.favorite,
            r.manual_weight == entry.manual_weight,
            r.enabled == entry.enabled,
            r.color == entry.color,
    {
        FolderDraft {
            id: Some(entry.id),
            display_name: entry.display_name.clone(),
            path: entry.path.clone(),
            aliases: clone_strings(&entry.aliases),
            category_id: entry.category_id,
            tag_ids: clone_tag_ids(&entry.tag_ids),
            note: entry.note.clone(),
            pinned: entry.pinned,
            favorite: entry.favorite,
            manual_weight: entry.manual_weight,
            enabled: entry.enabled,
            color: entry.color,
        }
    }
}

/// Status of one item of a batch add.
#[derive(Debug, Clone, PartialEq, Eq, Structural)]
pub enum BatchStatus {
    Ready,
    Duplicate,
    Invalid,
}

/// One item of a batch add preview.
#[derive(Debug, Clone, PartialEq, Eq)]
pub struct BatchItem {
    pub path: String,
    pub name: String,
    pub status: BatchStatus,
}

/// The add-dialog flow stages.
#[derive(Debug, Clone, PartialEq, Eq)]
pub enum AddFlow {
    /// The dialog is closed.
    Closed,
    /// A single add or edit whose path came from a picker, paste or text.
    Editing(FolderDraft),
    /// A batch import is being previewed.
    Previewing { items: Vec<BatchItem> },
}

/// An anonymous notice of the management page.
#[derive(Debug, Clone, Copy, PartialEq, Eq, Structural)]
pub enum Notice {
    Saved,
    SaveFailed,
    Removed,
    Restored,
    UndoExpired,
    CannotUndo,
    DuplicateBlocked,
    InvalidPath,
    InvalidName,
    NotFound,
    PathAccessible,
    PathInaccessible,
    ImportLimited,
}

/// The management page shown.
#[derive(Debug, Clone, Copy, PartialEq, Eq, Structural)]
pub enum Page {
    Folders,
    Categories,
    Tags,
}

/// One row of the category list.
#[derive(Debug, Clone, PartialEq, Eq)]
pub struct CategoryRow {
    pub id: CategoryId,
    pub name: String,
    pub color: Option<FolderColor>,
    pub count: usize,
}

/// One row of the tag list.
#[derive(Debug, Clone, PartialEq, Eq)]
pub struct TagRow {
    pub id: TagId,
    pub name: String,
    pub usage: usize,
}

/// Name of the application's directory below the local application-data
/// root.
pub const DATA_DIR_NAME: &'static str = "FileGo";

/// The application's data directory `<root>/FileGo` below the local
/// application-data root, or `None` when the root is unknown or blank.
pub fn data_dir_from(local_app_data: Option<&str>) -> (r: Option<PathBuf>)
    ensures
        r is None <==> match local_app_data {
            Some(root) => trimmed(root@).len() == 0,
            None => true,
        },
        r matches Some(p) ==> local_app_data matches Some(root) && p == joined_path(text_path(root@), DATA_DIR_NAME@),
{
    match local_app_data {
        None => None,
        Some(root) => {
            let kept = trim_chars(&chars_of(root));
            if kept.len() == 0 {
                None
            } else {
                Some(join_name(path_of(root), DATA_DIR_NAME))
            }
        },
    }
}

/// The id of the row at `index` of the management list, if there is one.
pub fn folder_id_at(rows: &[FolderRow], index: usize) -> (r: Option<FolderId>)
    ensures
        r == if index < rows@.len() {
            Some(rows@[index as int].id)
        } else {
            None
        },
{
    if index < rows.len() {
        Some(rows[index].id)
    } else {
        None
    }
}

/// Whether `r` is the record a batch add makes of `item` with `id` at
/// `now`: enabled, named by the item's trimmed name, at the item's path,
/// created and updated at `now`, with nothing else set.
pub open spec fn batch_record(r: FolderEntry, item: BatchItem, id: FolderId, now: i64) -> bool {
    &&& r.id == id
    &&& r.display_name@ == trimmed(item.name@)
    &&& r.path@ == item.path@
    &&& r.aliases@.len() == 0
    &&& r.category_id is None
    &&& r.tag_ids@.len() == 0
    &&& r.note@.len() == 0
    &&& !r.pinned
    &&& !r.favorite
    &&& r.manual_weight == 0
    &&& r.enabled
    &&& r.color is None
    &&& r.sort_order == 0
    &&& r.created_at == now
    &&& r.updated_at == now
    &&& r.last_opened_at is None
    &&& r.open_count == 0
}

/// The positions of the ready items of a batch, in order.
pub open spec fn ready_positions(items: Seq<BatchItem>) -> Seq<int>
    decreases items.len(),
{
    if items.len() == 0 {
        seq![]
    } else {
        let p = ready_positions(items.drop_last());
        if items.last().status == BatchStatus::Ready {
            p.push(items.len() - 1)
        } else {
            p
        }
    }
}

proof fn lemma_ready_positions_range(items: Seq<BatchItem>)
    ensures
        forall|k: int| 0 <= k < ready_positions(items).len() ==> 0 <= #[trigger] ready_positions(items)[k] < items.len(),
    decreases items.len(),
{
    if items.len() > 0 {
        let p = ready_positions(items.drop_last());
        lemma_ready_positions_range(items.drop_last());
        assert forall|k: int| 0 <= k < ready_positions(items).len() implies 0 <= #[trigger] ready_positions(items)[k]
            < items.len() by {
            if k < p.len() {
                assert(ready_positions(items)[k] == p[k]);
            }
        }
    }
}

/// The records a batch add makes: one per ready item, in order, each with
/// the fresh id given at the item's position (duplicates and invalid
/// items are not added).
pub fn batch_records(items: &[BatchItem], ids: &[FolderId], now_ms: i64) -> (r: Vec<FolderEntry>)
    requires
        ids@.len() == items@.len(),
    ensures
        r@.len() == ready_positions(items@).len(),
        forall|k: int| 0 <= k < r@.len() ==> batch_record(
            #[trigger] r@[k],
            items@[ready_positions(items@)[k]],
            ids@[ready_positions(items@)[k]],
            now_ms,
        ),
{
    let mut out: Vec<FolderEntry> = Vec::new();
    for i in 0..items.len()
        invariant
            ids@.len() == items@.len(),
            out@.len() == ready_positions(items@.take(i as int)).len(),
            forall|k: int| 0 <= k < out@.len() ==> batch_record(
                #[trigger] out@[k],
                items@[ready_positions(items@.take(i as int))[k]],
                ids@[ready_positions(items@.take(i as int))[k]],
                now_ms,
            ),
    {
        let ghost before = items@.take(i as int);
        assert(items@.take(i + 1).drop_last() == before);
        assert(items@.take(i + 1).last() == items@[i as int]);
        proof {
            lemma_ready_positions_range(before);
        }
        let item = &items[i];
        if item.status == BatchStatus::Ready {
            let entry = build_folder(
                ids[i],
                normalize_name(item.name.as_str()),
                item.path.clone(),
                Vec::new(),
                None,
                Vec::new(),
                String::new(),
                false,
                false,
                0,
                true,
                None,
                now_ms,
                now_ms,
            );
            out.push(entry);
        }
        assert forall|k: int| 0 <= k < out@.len() implies batch_record(
            #[trigger] out@[k],
            items@[ready_positions(items@.take(i + 1))[k]],
            ids@[ready_positions(items@.take(i + 1))[k]],
            now_ms,
        ) by {
            if k < ready_positions(before).len() {
                assert(ready_positions(items@.take(i + 1))[k] == ready_positions(before)[k]);
            }
        }
    }
    assert(items@.take(items@.len() as int) == items@);
    out
}

/// The value of the first variable of `env` named `name`, ignoring ASCII
/// case as the system does.
pub open spec fn env_value(env: Seq<(String, String)>, name: Seq<char>) -> Option<Seq<char>>
    decreases env.len(),
{
    if env.len() == 0 {
        None
    } else if ascii_lower_seq(env[0].0@) == ascii_lower_seq(name) {
        Some(env[0].1@)
    } else {
        env_value(env.drop_first(), name)
    }
}

/// The index of the first `%` of `t`, or `t.len()` when it has none.
pub open spec fn first_percent(t: Seq<char>) -> nat
    decreases t.len(),
{
    if t.len() == 0 {
        0
    } else if t[0] == '%' {
        0
    } else {
        1 + first_percent(t.drop_first())
    }
}

/// `t` with each `%NAME%` whose variable is set replaced by its value,
/// left to right; a `%` that opens no such reference stays as it is.
pub open spec fn expand_vars(env: Seq<(String, String)>, t: Seq<char>) -> Seq<char>
    decreases t.len(),
{
    if t.len() == 0 {
        seq![]
    } else {
        let k = first_percent(t.drop_first()) as int;
        if t[0] == '%' && 0 < k < t.len() - 1 && env_value(env, t.subrange(1, k + 1)) is Some {
            env_value(env, t.subrange(1, k + 1))->0 + expand_vars(env, t.skip(k + 2))
        } else {
            seq![t[0]] + expand_vars(env, t.skip(1))
        }
    }
}

/// The name of the profile-directory variable a leading `~` stands for.
pub const PROFILE_VARIABLE: &'static str = "USERPROFILE";

/// `raw` as a relocation preview shows it: a leading `~` (alone or before
/// a separator) becomes the profile directory when it is set, and each
/// `%NAME%` of a set variable its value (see [`expand_vars`]).
pub open spec fn expand_open_path(env: Seq<(String, String)>, raw: Seq<char>) -> Seq<char> {
    if raw.len() > 0 && raw[0] == '~' && (raw.len() == 1 || raw[1] == '\\' || raw[1] == '/') && env_value(
        env,
        PROFILE_VARIABLE@,
    ) is Some {
        env_value(env, PROFILE_VARIABLE@)->0 + expand_vars(env, raw.skip(1))
    } else {
        expand_vars(env, raw)
    }
}

proof fn lemma_first_percent_at(t: Seq<char>, k: int)
    requires
        0 <= k <= t.len(),
        forall|m: int| 0 <= m < k ==> #[trigger] t[m] != '%',
        k == t.len() || t[k] == '%',
    ensures
        first_percent(t) == k,
    decreases k,
{
    if k > 0 {
        assert forall|m: int| 0 <= m < k - 1 implies #[trigger] t.drop_first()[m] != '%' by {
            assert(t.drop_first()[m] == t[m + 1]);
        }
        if k < t.len() {
            assert(t.drop_first()[k - 1] == t[k]);
        }
        lemma_first_percent_at(t.drop_first(), k - 1);
    }
}

fn env_lookup(env: &Vec<(String, String)>, name: &Vec<char>) -> (r: Option<String>)
    ensures
        match r {
            Some(v) => env_value(env@, name@) == Some(v@),
            None => env_value(env@, name@) is None,
        },
{
    let mut i: usize = 0;
    assert(env@.skip(0) == env@);
    while i < env.len()
        invariant
            i <= env@.len(),
            env_value(env@, name@) == env_value(env@.skip(i as int), name@),
        decreases env@.len() - i,
    {
        assert(env@.skip(i as int).drop_first() == env@.skip(i + 1));
        let key = chars_of(env[i].0.as_str());
        if chars_equal_ignore_ascii_case(&key, name) {
            return Some(env[i].1.clone());
        }
        i = i + 1;
    }
    None
}

fn append_chars(out: &mut Vec<char>, s: &str)
    ensures
        final(out)@ == old(out)@ + s@,
{
    let cs = chars_of(s);
    let ghost start = out@;
    for i in 0..cs.len()
        invariant
            cs@ == s@,
            out@ == start + cs@.take(i as int),
    {
        out.push(cs[i]);
        assert(cs@.take(i + 1) == cs@.take(i as int).push(cs@[i as int]));
    }
    assert(cs@.take(cs@.len() as int) == cs@);
}

fn expand_vars_from(env: &Vec<(String, String)>, t: &Vec<char>, start: usize, out: &mut Vec<char>)
    requires
        start <= t@.len(),
    ensures
        final(out)@ == old(out)@ + expand_vars(env@, t@.skip(start as int)),
{
    let mut i = start;
    let ghost base = old(out)@;
    while i < t.len()
        invariant
            start <= i <= t@.len(),
            base + expand_vars(env@, t@.skip(start as int)) == out@ + expand_vars(env@, t@.skip(i as int)),
        decreases t@.len() - i,
    {
        let ghost u = t@.skip(i as int);
        assert(u.drop_first() == t@.skip(i + 1));
        assert(u.skip(1) == t@.skip(i + 1));
        let mut expanded = false;
        if t[i] == '%' {
            let mut j = i + 1;
            while j < t.len() && t[j] != '%'
                invariant
                    i + 1 <= j <= t@.len(),
                    forall|m: int| i + 1 <= m < j ==> #[trigger] t@[m] != '%',
                decreases t@.len() - j,
            {
                j = j + 1;
            }
            proof {
                let rest = u.drop_first();
                assert forall|m: int| 0 <= m < j - i - 1 implies #[trigger] rest[m] != '%' by {
                    assert(rest[m] == t@[i + 1 + m]);
                }
                if j < t@.len() {
                    assert(rest[j - i - 1] == t@[j as int]);
                }
                lemma_first_percent_at(rest, j - i - 1);
            }
            if j > i + 1 && j < t.len() {
                let mut name: Vec<char> = Vec::new();
                let mut m = i + 1;
                while m < j
                    invariant
                        i + 1 <= m <= j < t@.len(),
                        name@ == t@.subrange(i + 1, m as int),
                    decreases j - m,
                {
                    name.push(t[m]);
                    assert(t@.subrange(i + 1, m + 1) == t@.subrange(i + 1, m as int).push(t@[m as int]));
                    m = m + 1;
                }
                assert(u.subrange(1, j - i) == t@.subrange(i + 1, j as int));
                match env_lookup(env, &name) {
                    Some(value) => {
                        let ghost before = out@;
                        append_chars(out, value.as_str());
                        assert(u.skip(j - i + 1) == t@.skip(j + 1));
                        assert(out@ + expand_vars(env@, t@.skip(j + 1)) == before + expand_vars(env@, u)) by {
                            assert(before + (value@ + expand_vars(env@, t@.skip(j + 1))) == (before + value@)
                                + expand_vars(env@, t@.skip(j + 1)));
                        }
                        i = j + 1;
                        expanded = true;
                    },
                    None => {},
                }
            }
        }
        if !expanded {
            let ghost before = out@;
            out.push(t[i]);
            assert(before + (seq![t@[i as int]] + expand_vars(env@, t@.skip(i + 1))) == before.push(t@[i as int])
                + expand_vars(env@, t@.skip(i + 1)));
            i = i + 1;
        }
    }
    assert(t@.skip(i as int).len() == 0);
    assert(out@ + expand_vars(env@, t@.skip(i as int)) == out@);
}

/// The relocation preview of `raw` under the variables `env` (see
/// [`expand_open_path`]). Only the preview is expanded: the stored record
/// and the path that is opened keep the raw text.
pub fn relocate_preview(raw: &str, env: &Vec<(String, String)>) -> (r: String)
    ensures
        r@ == expand_open_path(env@, raw@),
{
    let t = chars_of(raw);
    let mut out: Vec<char> = Vec::new();
    let profile = env_lookup(env, &chars_of(PROFILE_VARIABLE));
    assert(t@.skip(0) == t@);
    if t.len() > 0 && t[0] == '~' && (t.len() == 1 || t[1] == '\\' || t[1] == '/') {
        match profile {
            Some(home) => {
                append_chars(&mut out, home.as_str());
                expand_vars_from(env, &t, 1, &mut out);
                return string_from_chars(&out);
            },
            None => {},
        }
    }
    expand_vars_from(env, &t, 0, &mut out);
    string_from_chars(&out)
}

/// What saving the dialog's draft comes to.
#[derive(Debug, Clone, Copy, PartialEq, Eq, Structural)]
pub enum DraftSave {
    /// The path cannot be classified.
    InvalidPath,
    /// The trimmed name is empty.
    InvalidName,
    /// Another record names the same folder; nothing is saved by default.
    DuplicateBlocked,
    /// The draft may be stored.
    Commit,
}

/// The save decision for `draft` among `folders`, checked in this order:
/// the path, the name, then the duplicate rule (records other than the one
/// edited that name the same folder).
pub open spec fn draft_save_of(draft: FolderDraft, folders: Seq<FolderEntry>) -> DraftSave {
    if path_key(draft.path@) is None {
        DraftSave::InvalidPath
    } else if trimmed(draft.display_name@).len() == 0 {
        DraftSave::InvalidName
    } else if first_index(folders, |f: FolderEntry| duplicates_candidate(f, draft.path@, draft.id)) is Some {
        DraftSave::DuplicateBlocked
    } else {
        DraftSave::Commit
    }
}

/// Decides what saving `draft` comes to (see [`draft_save_of`]).
pub fn draft_save_decision(draft: &FolderDraft, folders: &[FolderEntry]) -> (r: DraftSave)
    ensures
        r == draft_save_of(*draft, folders@),
{
    if path_key_of(draft.path.as_str()).is_none() {
        return DraftSave::InvalidPath;
    }
    let name = trim_chars(&chars_of(draft.display_name.as_str()));
    if name.len() == 0 {
        return DraftSave::InvalidName;
    }
    match evaluate_candidate(draft.path.as_str(), folders, draft.id) {
        CandidateVerdict::Accepted => DraftSave::Commit,
        CandidateVerdict::Duplicate { .. } => DraftSave::DuplicateBlocked,
        CandidateVerdict::InvalidPath => DraftSave::InvalidPath,
    }
}

/// A manual weight held within the accepted range.
pub open spec fn weight_clamped(w: i16) -> i16 {
    if w < MIN_MANUAL_WEIGHT {
        MIN_MANUAL_WEIGHT
    } else if w > MAX_MANUAL_WEIGHT {
        MAX_MANUAL_WEIGHT
    } else {
        w
    }
}

/// Holds a draft's manual weight within the accepted range.
pub fn clamp_draft_weight(weight: i16) -> (r: i16)
    ensures
        r == weight_clamped(weight),
{
    if weight < MIN_MANUAL_WEIGHT {
        MIN_MANUAL_WEIGHT
    } else if weight > MAX_MANUAL_WEIGHT {
        MAX_MANUAL_WEIGHT
    } else {
        weight
    }
}

/// The colour after `current` in the dialog's palette cycle: blue, green,
/// red, orange, violet, cyan, pink, then no colour, then blue again; a
/// colour outside the palette restarts at blue.
pub open spec fn next_palette_color(current: u32) -> u32 {
    if current == 0x2563_EBFF {
        0x0EA5_69FF
    } else if current == 0x0EA5_69FF {
        0xDC26_26FF
    } else if current == 0xDC26_26FF {
        0xEA58_0CFF
    } else if current == 0xEA58_0CFF {
        0x7C3A_EDFF
    } else if current == 0x7C3A_EDFF {
        0x0891_B2FF
    } else if current == 0x0891_B2FF {
        0xBE18_5DFF
    } else if current == 0xBE18_5DFF {
        0
    } else {
        0x2563_EBFF
    }
}

/// The draft colour after one step of the palette cycle (no colour counts
/// as the palette's last entry).
pub open spec fn next_color_of(color: Option<FolderColor>) -> Option<FolderColor> {
    let current = match color {
        Some(c) => c.0,
        None => 0,
    };
    let next = next_palette_color(current);
    if next == 0 {
        None
    } else {
        Some(FolderColor(next))
    }
}

/// Steps the draft colour through the palette (see [`next_color_of`]).
pub fn next_draft_color(color: Option<FolderColor>) -> (r: Option<FolderColor>)
    ensures
        r == next_color_of(color),
{
    let current = match color {
        Some(c) => c.0,
        None => 0,
    };
    let next = if current == 0x2563_EBFF {
        0x0EA5_69FF
    } else if current == 0x0EA5_69FF {
        0xDC26_26FF
    } else if current == 0xDC26_26FF {
        0xEA58_0CFF
    } else if current == 0xEA58_0CFF {
        0x7C3A_EDFF
    } else if current == 0x7C3A_EDFF {
        0x0891_B2FF
    } else if current == 0x0891_B2FF {
        0xBE18_5DFF
    } else if current == 0xBE18_5DFF {
        0
    } else {
        0x2563_EBFF
    };
    if next == 0 {
        None
    } else {
        Some(FolderColor(next))
    }
}

/// `tags` without any `tag`, in order.
pub open spec fn without_tag(tags: Seq<TagId>, tag: TagId) -> Seq<TagId>
    decreases tags.len(),
{
    if tags.len() == 0 {
        seq![]
    } else if tags.last() == tag {
        without_tag(tags.drop_last(), tag)
    } else {
        without_tag(tags.drop_last(), tag).push(tags.last())
    }
}

/// The draft's tags after ticking (`on`) or unticking `tag`: ticking adds
/// it at the end unless present; unticking removes every occurrence.
pub open spec fn toggled_tags(tags: Seq<TagId>, tag: TagId, on: bool) -> Seq<TagId> {
    if on {
        if tags.contains(tag) {
            tags
        } else {
            tags.push(tag)
        }
    } else {
        without_tag(tags, tag)
    }
}

/// Ticks or unticks `tag` on the draft's tags (see [`toggled_tags`]).
pub fn toggle_draft_tag(tags: &Vec<TagId>, tag: TagId, on: bool) -> (r: Vec<TagId>)
    ensures
        r@ == toggled_tags(tags@, tag, on),
{
    let mut out: Vec<TagId> = Vec::new();
    let mut present = false;
    for i in 0..tags.len()
        invariant
            out@ == without_tag(tags@.take(i as int), tag),
            present == tags@.take(i as int).contains(tag),
    {
        assert(tags@.take(i + 1).drop_last() == tags@.take(i as int));
        assert(tags@.take(i + 1).last() == tags@[i as int]);
        if tags[i] == tag {
            present = true;
        } else {
            out.push(tags[i]);
        }
        assert(tags@.take(i + 1) == tags@.take(i as int).push(tags@[i as int]));
        assert(present == tags@.take(i + 1).contains(tag)) by {
            let pre = tags@.take(i as int);
            let post = tags@.take(i + 1);
            if pre.contains(tag) {
                let k = choose|k: int| 0 <= k < pre.len() && #[trigger] pre[k] == tag;
                assert(post[k] == tag);
            }
            if post.contains(tag) && tags@[i as int] != tag {
                let k = choose|k: int| 0 <= k < post.len() && #[trigger] post[k] == tag;
                assert(pre[k] == tag);
            }
        }
    }
    assert(tags@.take(tags@.len() as int) == tags@);
    if on {
        if present {
            let mut same: Vec<TagId> = Vec::new();
            for i in 0..tags.len()
                invariant
                    same@ == tags@.take(i as int),
            {
                same.push(tags[i]);
                assert(tags@.take(i + 1) == tags@.take(i as int).push(tags@[i as int]));
            }
            assert(tags@.take(tags@.len() as int) == tags@);
            same
        } else {
            let mut added: Vec<TagId> = Vec::new();
            for i in 0..tags.len()
                invariant
                    added@ == tags@.take(i as int),
            {
                added.push(tags[i]);
                assert(tags@.take(i + 1) == tags@.take(i as int).push(tags@[i as int]));
            }
            assert(tags@.take(tags@.len() as int) == tags@);
            added.push(tag);
            added
        }
    } else {
        out
    }
}

/// How many of `folders` belong to category `id`.
pub open spec fn category_count(folders: Seq<FolderEntry>, id: CategoryId) -> nat
    decreases folders.len(),
{
    if folders.len() == 0 {
        0
    } else if folders.last().category_id == Some(id) {
        category_count(folders.drop_last(), id) + 1
    } else {
        category_count(folders.drop_last(), id)
    }
}

fn count_in_category(folders: &[FolderEntry], id: CategoryId) -> (r: usize)
    ensures
        r == category_count(folders@, id),
{
    let mut count: usize = 0;
    for i in 0..folders.len()
        invariant
            count == category_count(folders@.take(i as int), id),
            count <= i,
    {
        assert(folders@.take(i + 1).drop_last() == folders@.take(i as int));
        if folders[i].category_id == Some(id) {
            count = count + 1;
        }
    }
    assert(folders@.take(folders@.len() as int) == folders@);
    count
}

/// Whether `row` lists category `c`: its id, name and colour, and how many
/// of `folders` are in it.
pub open spec fn category_row_of(row: CategoryRow, c: Category, folders: Seq<FolderEntry>) -> bool {
    &&& row.id == c.id
    &&& row.name@ == c.name@
    &&& row.color == c.color
    &&& row.count == category_count(folders, c.id)
}

/// Whether `row` lists tag `t`: its id and name, and how many of `folders`
/// carry it.
pub open spec fn tag_row_of(row: TagRow, t: Tag, folders: Seq<FolderEntry>) -> bool {
    &&& row.id == t.id
    &&& row.name@ == t.name@
    &&& row.usage == usage_count(folders, t.id)
}

/// The category list: one row per category, in order, with its name,
/// colour and the number of records in it.
pub fn category_rows(folders: &[FolderEntry], categories: &[Category]) -> (r: Vec<CategoryRow>)
    ensures
        r@.len() == categories@.len(),
        forall|k: int| 0 <= k < r@.len() ==> category_row_of(#[trigger] r@[k], categories@[k], folders@),
{
    let mut rows: Vec<CategoryRow> = Vec::new();
    for i in 0..categories.len()
        invariant
            rows@.len() == i,
            forall|k: int| 0 <= k < i ==> category_row_of(#[trigger] rows@[k], categories@[k], folders@),
    {
        let c = &categories[i];
        let count = count_in_category(folders, c.id);
        rows.push(CategoryRow { id: c.id, name: c.name.clone(), color: c.color, count });
    }
    rows
}

/// The tag list: one row per tag, in order, with its name and the number
/// of records carrying it.
pub fn tag_rows(folders: &[FolderEntry], tags: &[Tag]) -> (r: Vec<TagRow>)
    ensures
        r@.len() == tags@.len(),
        forall|k: int| 0 <= k < r@.len() ==> tag_row_of(#[trigger] r@[k], tags@[k], folders@),
{
    let mut rows: Vec<TagRow> = Vec::new();
    for i in 0..tags.len()
        invariant
            rows@.len() == i,
            forall|k: int| 0 <= k < i ==> tag_row_of(#[trigger] rows@[k], tags@[k], folders@),
    {
        let t = &tags[i];
        let usage = tag_usage(folders, t.id);
        rows.push(TagRow { id: t.id, name: t.name.clone(), usage });
    }
    rows
}

/// One edit of the add/edit dialog's draft.
#[derive(Debug, Clone, PartialEq, Eq)]
pub enum DraftEdit {
    /// A new path; the name follows the path's suggestion.
    Path(String),
    Name(String),
    Note(String),
    TogglePinned,
    ToggleFavorite,
    Enabled(bool),
    Category(Option<CategoryId>),
    /// Tick (`true`) or untick a tag.
    Tag(TagId, bool),
    /// A manual weight, held within the accepted range.
    Weight(i16),
    /// The next colour of the palette cycle.
    CycleColor,
}

/// The display name suggested for a path: its last component, or the
/// trimmed path when it has none.
pub open spec fn suggested_name_of(path: Seq<char>) -> Seq<char> {
    match leaf_name(path) {
        Some(leaf) => leaf,
        None => trimmed(path),
    }
}

/// Whether `r` is `d` after `edit`: the edited field changes as the edit
/// says, every other field stays.
pub open spec fn draft_edited(d: FolderDraft, edit: DraftEdit, r: FolderDraft) -> bool {
    match edit {
        DraftEdit::Path(p) => {
            &&& r == FolderDraft { path: r.path, display_name: r.display_name, ..d }
            &&& r.path@ == p@
            &&& r.display_name@ == suggested_name_of(p@)
        },
        DraftEdit::Name(n) => r == FolderDraft { display_name: n, ..d },
        DraftEdit::Note(n) => r == FolderDraft { note: n, ..d },
        DraftEdit::TogglePinned => r == FolderDraft { pinned: !d.pinned, ..d },
        DraftEdit::ToggleFavorite => r == FolderDraft { favorite: !d.favorite, ..d },
        DraftEdit::Enabled(e) => r == FolderDraft { enabled: e, ..d },
        DraftEdit::Category(c) => r == FolderDraft { category_id: c, ..d },
        DraftEdit::Tag(t, on) => {
            &&& r == FolderDraft { tag_ids: r.tag_ids, ..d }
            &&& r.tag_ids@ == toggled_tags(d.tag_ids@, t, on)
        },
        DraftEdit::Weight(w) => r == FolderDraft { manual_weight: weight_clamped(w), ..d },
        DraftEdit::CycleColor => r == FolderDraft { color: next_color_of(d.color), ..d },
    }
}

/// Applies one edit to the draft (see [`draft_edited`]).
pub fn edit_draft(draft: FolderDraft, edit: DraftEdit) -> (r: FolderDraft)
    ensures
        draft_edited(draft, edit, r),
{
    let mut d = draft;
    match edit {
        DraftEdit::Path(p) => {
            d.display_name = suggested_display_name(p.as_str());
            d.path = p;
        },
        DraftEdit::Name(n) => d.display_name = n,
        DraftEdit::Note(n) => d.note = n,
        DraftEdit::TogglePinned => d.pinned = !d.pinned,
        DraftEdit::ToggleFavorite => d.favorite = !d.favorite,
        DraftEdit::Enabled(e) => d.enabled = e,
        DraftEdit::Category(c) => d.category_id = c,
        DraftEdit::Tag(t, on) => {
            let ids = toggle_draft_tag(&d.tag_ids, t, on);
            d.tag_ids = ids;
        },
        DraftEdit::Weight(w) => d.manual_weight = clamp_draft_weight(w),
        DraftEdit::CycleColor => d.color = next_draft_color(d.color),
    }
    d
}

/// The creation time a committed draft keeps: the edited record's own
/// (the first record of its id), else `now`.
pub open spec fn kept_created_at(d: FolderDraft, folders: Seq<FolderEntry>, now: i64) -> i64 {
    match d.id {
        Some(i) => match first_index(folders, |f: FolderEntry| f.id == i) {
            Some(k) => folders[k].created_at,
            None => now,
        },
        None => now,
    }
}

/// Whether `r` is the record a committed draft becomes: the edited
/// record's id (or `fresh_id` for an add), the trimmed name, every dialog
/// field as drafted, the kept creation time, updated at `now`, unopened and
/// in the default sort position.
pub open spec fn committed_record(r: FolderEntry, d: FolderDraft, folders: Seq<FolderEntry>, fresh_id: FolderId, now: i64) -> bool {
    &&& r.id == match d.id {
        Some(i) => i,
        None => fresh_id,
    }
    &&& r.display_name@ == trimmed(d.display_name@)
    &&& r.path@ == d.path@
    &&& r.aliases@.len() == d.aliases@.len()
    &&& forall|k: int| 0 <= k < d.aliases@.len() ==> #[trigger] r.aliases@[k]@ == d.aliases@[k]@
    &&& r.category_id == d.category_id
    &&& r.tag_ids@ == d.tag_ids@
    &&& r.note@ == d.note@
    &&& r.pinned == d.pinned
    &&& r.favorite == d.favorite
    &&& r.manual_weight == d.manual_weight
    &&& r.enabled == d.enabled
    &&& r.color == d.color
    &&& r.sort_order == 0
    &&& r.created_at == kept_created_at(d, folders, now)
    &&& r.updated_at == now
    &&& r.last_opened_at is None
    &&& r.open_count == 0
}

fn first_with_id(folders: &[FolderEntry], id: FolderId) -> (r: Option<usize>)
    ensures
        match r {
            Some(k) => first_index(folders@, |f: FolderEntry| f.id == id) == Some(k as int) && k < folders@.len(),
            None => first_index(folders@, |f: FolderEntry| f.id == id) is None,
        },
{
    let mut i: usize = 0;
    while i < folders.len() && folders[i].id != id
        invariant
            i <= folders@.len(),
            forall|j: int| 0 <= j < i ==> #[trigger] folders@[j].id != id,
        decreases folders@.len() - i,
    {
        i = i + 1;
    }
    proof {
        let p = |f: FolderEntry| f.id == id;
        assert forall|j: int| 0 <= j < i implies !p(#[trigger] folders@[j]) by {}
        lemma_first_index(folders@, p, i as int);
    }
    if i < folders.len() {
        Some(i)
    } else {
        None
    }
}

fn first_duplicate(folders: &[FolderEntry], path: &str, exclude_id: Option<FolderId>) -> (r: Option<usize>)
    ensures
        match r {
            Some(k) => first_index(folders@, |f: FolderEntry| duplicates_candidate(f, path@, exclude_id)) == Some(
                k as int,
            ) && k < folders@.len(),
            None => first_index(folders@, |f: FolderEntry| duplicates_candidate(f, path@, exclude_id)) is None,
        },
{
    let mut i: usize = 0;
    while i < folders.len()
        invariant
            i <= folders@.len(),
            forall|j: int| 0 <= j < i ==> !duplicates_candidate(#[trigger] folders@[j], path@, exclude_id),
        decreases folders@.len() - i,
    {
        let excluded = match exclude_id {
            Some(id) => id == folders[i].id,
            None => false,
        };
        if !excluded && crate::path_semantics::paths_match(folders[i].path.as_str(), path) {
            proof {
                let p = |f: FolderEntry| duplicates_candidate(f, path@, exclude_id);
                assert forall|j: int| 0 <= j < i implies !p(#[trigger] folders@[j]) by {}
                lemma_first_index(folders@, p, i as int);
            }
            return Some(i);
        }
        i = i + 1;
    }
    proof {
        let p = |f: FolderEntry| duplicates_candidate(f, path@, exclude_id);
        assert forall|j: int| 0 <= j < i implies !p(#[trigger] folders@[j]) by {}
        lemma_first_index(folders@, p, i as int);
    }
    None
}

/// The record a committed draft becomes (see [`committed_record`]).
pub fn commit_record(draft: &FolderDraft, folders: &[FolderEntry], fresh_id: FolderId, now_ms: i64) -> (r: FolderEntry)
    ensures
        committed_record(r, *draft, folders@, fresh_id, now_ms),
{
    let (id, created_at) = match draft.id {
        Some(i) => match first_with_id(folders, i) {
            Some(k) => (i, folders[k].created_at),
            None => (i, now_ms),
        },
        None => (fresh_id, now_ms),
    };
    let name = normalize_name(draft.display_name.as_str());
    build_folder(
        id,
        name,
        draft.path.clone(),
        clone_strings(&draft.aliases),
        draft.category_id,
        clone_tag_ids(&draft.tag_ids),
        draft.note.clone(),
        draft.pinned,
        draft.favorite,
        draft.manual_weight,
        draft.enabled,
        draft.color,
        created_at,
        now_ms,
    )
}

/// Law: a draft saved by default never names a folder that another record
/// (any record but the one edited) already names, and its path can be
/// classified.
pub proof fn lemma_default_save_adds_no_duplicate(d: FolderDraft, folders: Seq<FolderEntry>)
    requires
        draft_save_of(d, folders) == DraftSave::Commit,
    ensures
        path_key(d.path@) is Some,
        forall|k: int| 0 <= k < folders.len() && d.id != Some(#[trigger] folders[k].id) ==> !crate::path_semantics::same_path(
            folders[k].path@,
            d.path@,
        ),
{
    let p = |f: FolderEntry| duplicates_candidate(f, d.path@, d.id);
    lemma_first_index_none(folders, p);
    assert forall|k: int| 0 <= k < folders.len() && d.id != Some(#[trigger] folders[k].id) implies !crate::path_semantics::same_path(
        folders[k].path@,
        d.path@,
    ) by {
        assert(!p(folders[k]));
    }
}

/// What saving the draft leads to: a refusal with its notice, or the
/// record to store.
#[derive(Debug, Clone, PartialEq, Eq)]
pub enum DraftOutcome {
    Refused(Notice),
    Commit(FolderEntry),
    /// Open the record that already names the folder, for editing.
    EditExisting(FolderId),
}

/// Saves the dialog's draft by default: refused as [`draft_save_of`] says
/// (`InvalidPath`, `InvalidName`, `DuplicateBlocked`), else committed (see
/// [`committed_record`]).
pub fn save_draft(draft: &FolderDraft, folders: &[FolderEntry], fresh_id: FolderId, now_ms: i64) -> (r: DraftOutcome)
    ensures
        match draft_save_of(*draft, folders@) {
            DraftSave::InvalidPath => r == DraftOutcome::Refused(Notice::InvalidPath),
            DraftSave::InvalidName => r == DraftOutcome::Refused(Notice::InvalidName),
            DraftSave::DuplicateBlocked => r == DraftOutcome::Refused(Notice::DuplicateBlocked),
            DraftSave::Commit => r matches DraftOutcome::Commit(e) && committed_record(e, *draft, folders@, fresh_id, now_ms),
        },
{
    match draft_save_decision(draft, folders) {
        DraftSave::InvalidPath => DraftOutcome::Refused(Notice::InvalidPath),
        DraftSave::InvalidName => DraftOutcome::Refused(Notice::InvalidName),
        DraftSave::DuplicateBlocked => DraftOutcome::Refused(Notice::DuplicateBlocked),
        DraftSave::Commit => DraftOutcome::Commit(commit_record(draft, folders, fresh_id, now_ms)),
    }
}

/// Resolves a draft that names an already recorded folder: an
/// unclassifiable path is refused first; `Cancel` keeps it blocked;
/// `EditExisting` opens the first other record naming the folder (or
/// `NotFound`); `SaveAsDifferentName` commits the draft as its own record
/// unless its trimmed name is empty.
pub fn resolve_duplicate(draft: &FolderDraft, folders: &[FolderEntry], policy: DuplicatePolicy, fresh_id: FolderId, now_ms: i64) -> (r: DraftOutcome)
    ensures
        path_key(draft.path@) is None ==> r == DraftOutcome::Refused(Notice::InvalidPath),
        path_key(draft.path@) is Some ==> match policy {
            DuplicatePolicy::Cancel => r == DraftOutcome::Refused(Notice::DuplicateBlocked),
            DuplicatePolicy::EditExisting => match first_index(
                folders@,
                |f: FolderEntry| duplicates_candidate(f, draft.path@, draft.id),
            ) {
                Some(k) => r == DraftOutcome::EditExisting(folders@[k].id),
                None => r == DraftOutcome::Refused(Notice::NotFound),
            },
            DuplicatePolicy::SaveAsDifferentName => if trimmed(draft.display_name@).len() == 0 {
                r == DraftOutcome::Refused(Notice::InvalidName)
            } else {
                r matches DraftOutcome::Commit(e) && committed_record(e, *draft, folders@, fresh_id, now_ms)
            },
        },
{
    if path_key_of(draft.path.as_str()).is_none() {
        return DraftOutcome::Refused(Notice::InvalidPath);
    }
    match policy {
        DuplicatePolicy::Cancel => DraftOutcome::Refused(Notice::DuplicateBlocked),
        DuplicatePolicy::EditExisting => match first_duplicate(folders, draft.path.as_str(), draft.id) {
            Some(k) => DraftOutcome::EditExisting(folders[k].id),
            None => DraftOutcome::Refused(Notice::NotFound),
        },
        DuplicatePolicy::SaveAsDifferentName => {
            let name = trim_chars(&chars_of(draft.display_name.as_str()));
            if name.len() == 0 {
                DraftOutcome::Refused(Notice::InvalidName)
            } else {
                DraftOutcome::Commit(commit_record(draft, folders, fresh_id, now_ms))
            }
        },
    }
}

/// Whether the trimmed `name` is non-empty and at most `max` characters.
pub open spec fn name_fits(name: Seq<char>, max: usize) -> bool {
    trimmed(name).len() > 0 && trimmed(name).len() <= max
}

/// Whether a category of `categories`, other than `except`, is named exactly
/// `name`.
pub open spec fn category_named(categories: Seq<Category>, name: Seq<char>, except: Option<CategoryId>) -> bool {
    exists|k: int| 0 <= k < categories.len() && except != Some(categories[k].id) && #[trigger] categories[k].name@ == name
}

/// Whether a tag of `tags`, other than `except`, is named like `name` under
/// the name policy.
pub open spec fn tag_named(tags: Seq<Tag>, name: Seq<char>, except: Option<TagId>) -> bool {
    exists|k: int| 0 <= k < tags.len() && except != Some(tags[k].id) && same_name(#[trigger] tags[k].name@, name)
}

fn chars_equal(a: &Vec<char>, b: &Vec<char>) -> (r: bool)
    ensures
        r == (a@ == b@),
{
    if a.len() != b.len() {
        return false;
    }
    for i in 0..a.len()
        invariant
            a@.len() == b@.len(),
            forall|k: int| 0 <= k < i ==> a@[k] == b@[k],
    {
        if a[i] != b[i] {
            return false;
        }
    }
    assert(a@ =~= b@);
    true
}

fn category_name_used(categories: &[Category], name: &Vec<char>, except: Option<CategoryId>) -> (r: bool)
    ensures
        r == category_named(categories@, name@, except),
{
    for i in 0..categories.len()
        invariant
            forall|k: int| 0 <= k < i ==> !(except != Some(categories@[k].id) && #[trigger] categories@[k].name@ == name@),
    {
        let skip = match except {
            Some(id) => id == categories[i].id,
            None => false,
        };
        if !skip && chars_equal(&chars_of(categories[i].name.as_str()), name) {
            return true;
        }
    }
    false
}

fn tag_name_used(tags: &[Tag], name: &str, except: Option<TagId>) -> (r: bool)
    ensures
        r == tag_named(tags@, name@, except),
{
    for i in 0..tags.len()
        invariant
            forall|k: int| 0 <= k < i ==> !(except != Some(tags@[k].id) && same_name(#[trigger] tags@[k].name@, name@)),
    {
        let skip = match except {
            Some(id) => id == tags[i].id,
            None => false,
        };
        if !skip && names_equal(tags[i].name.as_str(), name) {
            return true;
        }
    }
    false
}

/// Checks a new category's name: accepted (trimmed) when it fits and no
/// category already carries exactly that name; otherwise `InvalidName`.
pub fn check_new_category(name: &str, categories: &[Category]) -> (r: Result<String, Notice>)
    ensures
        r is Ok <==> name_fits(name@, MAX_CATEGORY_NAME_LEN) && !category_named(categories@, trimmed(name@), None),
        r matches Ok(n) ==> n@ == trimmed(name@),
        r matches Err(e) ==> e == Notice::InvalidName,
{
    if !valid_named_value(name, MAX_CATEGORY_NAME_LEN) {
        return Err(Notice::InvalidName);
    }
    let trimmed_name = trim_chars(&chars_of(name));
    if category_name_used(categories, &trimmed_name, None) {
        return Err(Notice::InvalidName);
    }
    Ok(string_from_chars(&trimmed_name))
}

/// Checks renaming category `id`: an unfitting name is `InvalidName`, an
/// unknown id `NotFound`, a name another category carries exactly
/// `InvalidName`; otherwise the position of the category and the trimmed
/// name.
pub fn check_category_rename(id: CategoryId, name: &str, categories: &[Category]) -> (r: Result<(usize, String), Notice>)
    ensures
        !name_fits(name@, MAX_CATEGORY_NAME_LEN) ==> r == Err::<(usize, String), Notice>(Notice::InvalidName),
        name_fits(name@, MAX_CATEGORY_NAME_LEN) ==> match first_index(categories@, |c: Category| c.id == id) {
            None => r == Err::<(usize, String), Notice>(Notice::NotFound),
            Some(k) => if category_named(categories@, trimmed(name@), Some(id)) {
                r == Err::<(usize, String), Notice>(Notice::InvalidName)
            } else {
                r matches Ok((i, n)) && i == k && n@ == trimmed(name@)
            },
        },
{
    if !valid_named_value(name, MAX_CATEGORY_NAME_LEN) {
        return Err(Notice::InvalidName);
    }
    let mut i: usize = 0;
    while i < categories.len() && categories[i].id != id
        invariant
            i <= categories@.len(),
            forall|j: int| 0 <= j < i ==> #[trigger] categories@[j].id != id,
        decreases categories@.len() - i,
    {
        i = i + 1;
    }
    proof {
        let p = |c: Category| c.id == id;
        assert forall|j: int| 0 <= j < i implies !p(#[trigger] categories@[j]) by {}
        lemma_first_index(categories@, p, i as int);
    }
    if i == categories.len() {
        return Err(Notice::NotFound);
    }
    let trimmed_name = trim_chars(&chars_of(name));
    if category_name_used(categories, &trimmed_name, Some(id)) {
        return Err(Notice::InvalidName);
    }
    Ok((i, string_from_chars(&trimmed_name)))
}

/// Checks a new tag's name: accepted (trimmed) when it fits and no tag is
/// named like it under the name policy; otherwise `InvalidName`.
pub fn check_new_tag(name: &str, tags: &[Tag]) -> (r: Result<String, Notice>)
    ensures
        r is Ok <==> name_fits(name@, MAX_TAG_NAME_LEN) && !tag_named(tags@, name@, None),
        r matches Ok(n) ==> n@ == trimmed(name@),
        r matches Err(e) ==> e == Notice::InvalidName,
{
    if !valid_named_value(name, MAX_TAG_NAME_LEN) || tag_name_used(tags, name, None) {
        return Err(Notice::InvalidName);
    }
    Ok(normalize_name(name))
}

/// Checks renaming tag `id`: the trimmed name when it fits and no other tag
/// is named like it; otherwise `InvalidName`.
pub fn check_tag_rename(id: TagId, name: &str, tags: &[Tag]) -> (r: Result<String, Notice>)
    ensures
        r is Ok <==> name_fits(name@, MAX_TAG_NAME_LEN) && !tag_named(tags@, name@, Some(id)),
        r matches Ok(n) ==> n@ == trimmed(name@),
        r matches Err(e) ==> e == Notice::InvalidName,
{
    if !valid_named_value(name, MAX_TAG_NAME_LEN) || tag_name_used(tags, name, Some(id)) {
        return Err(Notice::InvalidName);
    }
    Ok(normalize_name(name))
}

/// Checks merging tag `source` into the tag named `target_name`: the first
/// other tag named like it (see [`merge_match`]), or `InvalidName` when
/// there is none.
pub fn check_tag_merge(source: TagId, target_name: &str, tags: &[Tag]) -> (r: Result<TagId, Notice>)
    ensures
        r == match merge_match(tags@, source, target_name@) {
            Some(t) => Ok::<TagId, Notice>(t),
            None => Err(Notice::InvalidName),
        },
{
    proof {
        lemma_merge_match_other(tags@, source, target_name@);
    }
    let target = resolve_merge_target_id(tags, source, target_name);
    if target == source {
        Err(Notice::InvalidName)
    } else {
        Ok(target)
    }
}

proof fn lemma_merge_match_other(tags: Seq<Tag>, source: TagId, name: Seq<char>)
    ensures
        merge_match(tags, source, name) matches Some(t) ==> t != source,
    decreases tags.len(),
{
    if tags.len() > 0 {
        lemma_merge_match_other(tags.drop_first(), source, name);
    }
}

/// How long a removal can be undone, in milliseconds.
pub const UNDO_WINDOW_MS: i64 = 8000;

/// A removal that can still be undone: the removed record, the revision
/// the document had before the removal was saved, and when the undo window
/// closes (ms since the epoch).
#[derive(Debug, Clone, PartialEq, Eq)]
pub struct PendingRemove {
    pub folder_id: FolderId,
    pub payload: FolderEntry,
    pub previous_revision: u64,
    pub expires_at: i64,
}

/// The pending one-level import offer of a parent pick.
#[derive(Debug, Clone, PartialEq, Eq)]
pub struct ImportOffer {
    pub parent_path: String,
    pub child_count: usize,
}

/// Whether `item` is the batch item of the picked path `raw`, given the
/// keys already marked ready: an unclassifiable path is `Invalid` under its
/// trimmed text; one naming a recorded folder or repeating a ready key is a
/// `Duplicate`, and anything else `Ready`, both under the path's suggested
/// name.
pub open spec fn batch_item_of(item: BatchItem, raw: Seq<char>, folders: Seq<FolderEntry>, seen: Seq<Seq<char>>) -> bool {
    &&& item.path@ == raw
    &&& match path_key(raw) {
        None => item.status == BatchStatus::Invalid && item.name@ == trimmed(raw),
        Some(key) => if names_recorded_folder(folders, raw) || seen.contains(key) {
            item.status == BatchStatus::Duplicate && item.name@ == suggested_name_of(raw)
        } else {
            item.status == BatchStatus::Ready && item.name@ == suggested_name_of(raw)
        },
    }
}

/// The batch preview of picking `paths` (see [`batch_item_of`]).
pub fn batch_items(paths: &Vec<String>, folders: &[FolderEntry]) -> (r: Vec<BatchItem>)
    ensures
        r@.len() == paths@.len(),
        forall|k: int| 0 <= k < paths@.len() ==> batch_item_of(
            #[trigger] r@[k],
            paths@[k]@,
            folders@,
            batch_seen(paths@, folders@, k),
        ),
{
    let no_names: Vec<String> = Vec::new();
    let statuses = preview_batch(paths.as_slice(), folders, no_names.as_slice());
    let mut items: Vec<BatchItem> = Vec::new();
    for k in 0..paths.len()
        invariant
            statuses@.len() == paths@.len(),
            forall|j: int| 0 <= j < paths@.len() ==> batch_item_is(
                #[trigger] statuses@[j],
                paths@[j]@,
                folders@,
                no_names@,
                batch_seen(paths@, folders@, j),
            ),
            items@.len() == k,
            forall|j: int| 0 <= j < k ==> batch_item_of(
                #[trigger] items@[j],
                paths@[j]@,
                folders@,
                batch_seen(paths@, folders@, j),
            ),
    {
        let path = &paths[k];
        let item = match &statuses[k] {
            AddItemStatus::Ready { resolved_name } => BatchItem {
                path: path.clone(),
                name: resolved_name.clone(),
                status: BatchStatus::Ready,
            },
            AddItemStatus::Duplicate { .. } => BatchItem {
                path: path.clone(),
                name: suggested_display_name(path.as_str()),
                status: BatchStatus::Duplicate,
            },
            AddItemStatus::Invalid => BatchItem {
                path: path.clone(),
                name: normalize_name(path.as_str()),
                status: BatchStatus::Invalid,
            },
        };
        items.push(item);
    }
    items
}

/// Whether `d` is the draft of a new add at `path`.
pub open spec fn add_draft_of(d: FolderDraft, path: Seq<char>) -> bool {
    &&& d.id is None
    &&& d.display_name@ == suggested_name_of(path)
    &&& d.path@ == path
    &&& d.aliases@.len() == 0
    &&& d.category_id is None
    &&& d.tag_ids@.len() == 0
    &&& d.note@.len() == 0
    &&& !d.pinned
    &&& !d.favorite
    &&& d.manual_weight == 0
    &&& d.enabled
    &&& d.color is None
}

/// Whether `next` is `c` with the dialog opened on a new add at `path` and
/// no import offer pending.
pub open spec fn opened_single(c: ManagementController, path: Seq<char>, next: ManagementController) -> bool {
    &&& next == ManagementController { draft: next.draft, import_offer: None, ..c }
    &&& next.draft matches Some(d) && add_draft_of(d, path)
}

/// Whether `next` is `c` after picking `paths`: nothing for no path; one
/// path opens its draft, or, with the one-level import on, asks for its
/// children to be counted; several paths replace the batch with their
/// preview and close the dialog.
pub open spec fn picked(c: ManagementController, folders: Seq<FolderEntry>, paths: Seq<String>, next: ManagementController, action: StoreAction) -> bool {
    if paths.len() == 0 {
        next == c && action == StoreAction::Nothing
    } else if paths.len() == 1 {
        if c.one_level_import_setting {
            next == c && (action matches StoreAction::CountChildren(p) && p@ == paths[0]@)
        } else {
            opened_single(c, paths[0]@, next) && action == StoreAction::Nothing
        }
    } else {
        &&& next == ManagementController { batch: next.batch, draft: None, ..c }
        &&& next.batch@.len() == paths.len()
        &&& forall|k: int| 0 <= k < paths.len() ==> batch_item_of(
            #[trigger] next.batch@[k],
            paths[k]@,
            folders,
            batch_seen(paths, folders, k),
        )
        &&& action == StoreAction::Nothing
    }
}

/// The management window's decision layer: the page, the list's filter and
/// sort, the add/edit dialog's draft, the previewed batch and the notice.
#[derive(Debug, Clone, PartialEq, Eq)]
pub struct ManagementController {
    pub page: Page,
    pub filter: FolderFilter,
    pub sort: FolderSort,
    pub draft: Option<FolderDraft>,
    pub batch: Vec<BatchItem>,
    pub notice: Option<Notice>,
    /// Whether a single parent pick offers its direct children.
    pub one_level_import_setting: bool,
    pub import_offer: Option<ImportOffer>,
    pub pending_remove: Option<PendingRemove>,
}

/// What the management window asks of its controller.
#[derive(Debug, Clone, PartialEq, Eq)]
pub enum MCommand {
    ShowPage(Page),
    SetFilterName(String),
    SetFilterCategory(Option<CategoryId>),
    SetFilterEnabled(Option<bool>),
    SetSort(FolderSort),
    OpenAdd,
    OpenPickPaths(Vec<String>),
    OpenManual,
    EditFolder(FolderId),
    EditPath(String),
    EditName(String),
    EditNote(String),
    ToggleDraftPinned,
    ToggleDraftFavorite,
    SetDraftEnabled(bool),
    SetDraftCategory(Option<CategoryId>),
    SetDraftTag(TagId, bool),
    SetDraftWeight(i16),
    CycleDraftColor,
    SaveDraft,
    ResolveDuplicate(DuplicatePolicy),
    CancelDraft,
    ApplyBatch,
    CancelBatch,
    ToggleEnable(FolderId),
    TogglePin(FolderId),
    ToggleFavorite(FolderId),
    Relocate(FolderId, String),
    CreateCategory(String),
    RenameCategory(CategoryId, String),
    DeleteCategory(CategoryId),
    CreateTag(String),
    RenameTag(TagId, String),
    MergeTag(TagId, String),
    DeleteTag(TagId),
    SetOneLevelImport(bool),
    ChooseImport(ChildImportChoice),
    DismissImport,
    StartRemove(FolderId),
    ConfirmRemove,
    CancelRemove,
    UndoRemove,
    DismissUndo,
    CheckPath(FolderId),
    DismissNotice,
    /// Re-read the stored document (the rows are recomputed from it).
    Refresh,
}

/// The store work a management step asks for; the caller reports the
/// outcome through [`ManagementController::after_store`].
#[derive(Debug, Clone, PartialEq, Eq)]
pub enum StoreAction {
    Nothing,
    /// Store the committed draft's record (add or replace by id).
    PutFolder(FolderEntry),
    /// Add the ready items of the controller's batch (see
    /// [`batch_records`]).
    AddBatch,
    SetEnabled(FolderId, bool),
    SetPinned(FolderId, bool),
    SetFavorite(FolderId, bool),
    Relocate(FolderId, String),
    PutCategory(Category),
    RenameCategory(CategoryId, String),
    RemoveCategory(CategoryId),
    PutTag(Tag),
    RenameTag(TagId, String),
    MergeTag(TagId, TagId),
    RemoveTag(TagId),
    /// Store the one-level import setting.
    SetOneLevelImport(bool),
    /// Count the direct child folders of the picked parent (see
    /// [`ManagementController::after_child_count`]).
    CountChildren(String),
    /// List up to the one-level limit of the parent's direct child folders
    /// (see [`ManagementController::after_children`]).
    ListChildren(String),
    /// Remove the record (never the folder on disk) and save.
    RemoveRecord(FolderId),
    /// Put the pending removal's record back, provided the removal is still
    /// the document's last save, and save.
    RestoreRemoved,
    /// Check whether the folder at the path is reachable (see
    /// [`ManagementController::after_probe`]).
    ProbePath(String),
}

/// `c` showing `notice`.
pub open spec fn m_notice(c: ManagementController, notice: Notice) -> ManagementController {
    ManagementController { notice: Some(notice), ..c }
}

/// Whether `d` is the draft of a new, empty add.
pub open spec fn empty_add_draft(d: FolderDraft) -> bool {
    &&& d.id is None
    &&& d.display_name@ == suggested_name_of(seq![])
    &&& d.path@.len() == 0
    &&& d.aliases@.len() == 0
    &&& d.category_id is None
    &&& d.tag_ids@.len() == 0
    &&& d.note@.len() == 0
    &&& !d.pinned
    &&& !d.favorite
    &&& d.manual_weight == 0
    &&& d.enabled
    &&& d.color is None
}

/// Whether `d` is the draft that edits `e`.
pub open spec fn edit_draft_of(d: FolderDraft, e: FolderEntry) -> bool {
    &&& d.id == Some(e.id)
    &&& d.display_name@ == e.display_name@
    &&& d.path@ == e.path@
    &&& d.aliases@.len() == e.aliases@.len()
    &&& forall|k: int| 0 <= k < e.aliases@.len() ==> #[trigger] d.aliases@[k]@ == e.aliases@[k]@
    &&& d.category_id == e.category_id
    &&& d.tag_ids@ == e.tag_ids@
    &&& d.note@ == e.note@
    &&& d.pinned == e.pinned
    &&& d.favorite == e.favorite
    &&& d.manual_weight == e.manual_weight
    &&& d.enabled == e.enabled
    &&& d.color == e.color
}

/// The position of the first of `folders` with id `id`.
pub open spec fn folder_at(folders: Seq<FolderEntry>, id: FolderId) -> Option<int> {
    first_index(folders, |f: FolderEntry| f.id == id)
}

/// Whether `next` is `c` with the dialog opened on the record of id `id`,
/// or `c` showing `NotFound` when there is none.
pub open spec fn opened_edit(c: ManagementController, folders: Seq<FolderEntry>, id: FolderId, next: ManagementController) -> bool {
    match folder_at(folders, id) {
        Some(k) => {
            &&& next == ManagementController { draft: next.draft, batch: next.batch, ..c }
            &&& next.draft matches Some(d) && edit_draft_of(d, folders[k])
            &&& next.batch@.len() == 0
        },
        None => next == m_notice(c, Notice::NotFound),
    }
}

/// The draft edit a dialog command stands for.
pub open spec fn draft_edit_of(command: MCommand) -> DraftEdit {
    match command {
        MCommand::EditPath(p) => DraftEdit::Path(p),
        MCommand::EditName(n) => DraftEdit::Name(n),
        MCommand::EditNote(n) => DraftEdit::Note(n),
        MCommand::ToggleDraftPinned => DraftEdit::TogglePinned,
        MCommand::ToggleDraftFavorite => DraftEdit::ToggleFavorite,
        MCommand::SetDraftEnabled(e) => DraftEdit::Enabled(e),
        MCommand::SetDraftCategory(x) => DraftEdit::Category(x),
        MCommand::SetDraftTag(t, on) => DraftEdit::Tag(t, on),
        MCommand::SetDraftWeight(w) => DraftEdit::Weight(w),
        _ => DraftEdit::CycleColor,
    }
}

fn edit_of(command: MCommand) -> (r: DraftEdit)
    ensures
        r == draft_edit_of(command),
{
    match command {
        MCommand::EditPath(p) => DraftEdit::Path(p),
        MCommand::EditName(n) => DraftEdit::Name(n),
        MCommand::EditNote(n) => DraftEdit::Note(n),
        MCommand::ToggleDraftPinned => DraftEdit::TogglePinned,
        MCommand::ToggleDraftFavorite => DraftEdit::ToggleFavorite,
        MCommand::SetDraftEnabled(e) => DraftEdit::Enabled(e),
        MCommand::SetDraftCategory(x) => DraftEdit::Category(x),
        MCommand::SetDraftTag(t, on) => DraftEdit::Tag(t, on),
        MCommand::SetDraftWeight(w) => DraftEdit::Weight(w),
        _ => DraftEdit::CycleColor,
    }
}

/// The list, dialog and batch commands (see [`management_step`]).
pub open spec fn dialog_step(
    c: ManagementController,
    folders: Seq<FolderEntry>,
    command: MCommand,
    fresh_id: FolderId,
    now: i64,
    next: ManagementController,
    action: StoreAction,
) -> bool {
    match command {
        MCommand::ShowPage(p) => next == ManagementController { page: p, ..c } && action == StoreAction::Nothing,
        MCommand::SetFilterName(n) => next == ManagementController { filter: FolderFilter { name: n, ..c.filter }, ..c }
            && action == StoreAction::Nothing,
        MCommand::SetFilterCategory(x) => next == ManagementController {
            filter: FolderFilter { category: x, ..c.filter },
            ..c
        } && action == StoreAction::Nothing,
        MCommand::SetFilterEnabled(x) => next == ManagementController {
            filter: FolderFilter { enabled: x, ..c.filter },
            ..c
        } && action == StoreAction::Nothing,
        MCommand::SetSort(x) => next == ManagementController { sort: x, ..c } && action == StoreAction::Nothing,
        MCommand::OpenAdd | MCommand::OpenManual => {
            &&& next == ManagementController { draft: next.draft, batch: next.batch, import_offer: None, ..c }
            &&& next.draft matches Some(d) && empty_add_draft(d)
            &&& next.batch@.len() == 0
            &&& action == StoreAction::Nothing
        },
        MCommand::OpenPickPaths(paths) => picked(c, folders, paths@, next, action),
        MCommand::ChooseImport(choice) => match c.import_offer {
            None => next == c && action == StoreAction::Nothing,
            Some(offer) => match choice {
                ChildImportChoice::ParentOnly => opened_single(c, offer.parent_path@, next) && action
                    == StoreAction::Nothing,
                ChildImportChoice::DirectChildren => next == c && (action matches StoreAction::ListChildren(p)
                    && p@ == offer.parent_path@),
            },
        },
        MCommand::DismissImport => next == ManagementController { import_offer: None, ..c } && action
            == StoreAction::Nothing,
        MCommand::SetOneLevelImport(e) => next == c && action == StoreAction::SetOneLevelImport(e),
        MCommand::ConfirmRemove | MCommand::Refresh => next == c && action == StoreAction::Nothing,
        MCommand::CancelRemove | MCommand::DismissUndo => next == ManagementController { pending_remove: None, ..c }
            && action == StoreAction::Nothing,
        MCommand::UndoRemove => match c.pending_remove {
            None => next == c && action == StoreAction::Nothing,
            Some(p) => if now >= p.expires_at {
                next == ManagementController { pending_remove: None, notice: Some(Notice::UndoExpired), ..c } && action
                    == StoreAction::Nothing
            } else {
                next == c && action == StoreAction::RestoreRemoved
            },
        },
        MCommand::EditFolder(id) => opened_edit(c, folders, id, next) && action == StoreAction::Nothing,
        MCommand::EditPath(_) | MCommand::EditName(_) | MCommand::EditNote(_) | MCommand::ToggleDraftPinned
        | MCommand::ToggleDraftFavorite | MCommand::SetDraftEnabled(_) | MCommand::SetDraftCategory(_)
        | MCommand::SetDraftTag(..) | MCommand::SetDraftWeight(_) | MCommand::CycleDraftColor => match c.draft {
            None => next == c && action == StoreAction::Nothing,
            Some(d) => {
                &&& next == ManagementController { draft: next.draft, ..c }
                &&& next.draft matches Some(r) && draft_edited(d, draft_edit_of(command), r)
                &&& action == StoreAction::Nothing
            },
        },
        MCommand::SaveDraft => match c.draft {
            None => next == c && action == StoreAction::Nothing,
            Some(d) => match draft_save_of(d, folders) {
                DraftSave::InvalidPath => next == m_notice(c, Notice::InvalidPath) && action == StoreAction::Nothing,
                DraftSave::InvalidName => next == m_notice(c, Notice::InvalidName) && action == StoreAction::Nothing,
                DraftSave::DuplicateBlocked => next == m_notice(c, Notice::DuplicateBlocked) && action
                    == StoreAction::Nothing,
                DraftSave::Commit => next == c && (action matches StoreAction::PutFolder(e) && committed_record(
                    e,
                    d,
                    folders,
                    fresh_id,
                    now,
                )),
            },
        },
        MCommand::ResolveDuplicate(policy) => match c.draft {
            None => next == c && action == StoreAction::Nothing,
            Some(d) => if path_key(d.path@) is None {
                next == m_notice(c, Notice::InvalidPath) && action == StoreAction::Nothing
            } else {
                match policy {
                    DuplicatePolicy::Cancel => next == m_notice(c, Notice::DuplicateBlocked) && action
                        == StoreAction::Nothing,
                    DuplicatePolicy::EditExisting => match first_index(
                        folders,
                        |f: FolderEntry| duplicates_candidate(f, d.path@, d.id),
                    ) {
                        Some(k) => opened_edit(c, folders, folders[k].id, next) && action == StoreAction::Nothing,
                        None => next == m_notice(c, Notice::NotFound) && action == StoreAction::Nothing,
                    },
                    DuplicatePolicy::SaveAsDifferentName => if trimmed(d.display_name@).len() == 0 {
                        next == m_notice(c, Notice::InvalidName) && action == StoreAction::Nothing
                    } else {
                        next == c && (action matches StoreAction::PutFolder(e) && committed_record(
                            e,
                            d,
                            folders,
                            fresh_id,
                            now,
                        ))
                    },
                }
            },
        },
        MCommand::CancelDraft => next == ManagementController { draft: None, import_offer: None, ..c } && action
            == StoreAction::Nothing,
        MCommand::ApplyBatch => next == c && action == StoreAction::AddBatch,
        MCommand::CancelBatch => next == ManagementController { batch: next.batch, ..c } && next.batch@.len() == 0
            && action == StoreAction::Nothing,
        MCommand::DismissNotice => next == ManagementController { notice: None, ..c } && action == StoreAction::Nothing,
        _ => false,
    }
}

/// The record and category/tag commands (see [`management_step`]).
pub open spec fn record_step(
    c: ManagementController,
    folders: Seq<FolderEntry>,
    categories: Seq<Category>,
    tags: Seq<Tag>,
    revision: u64,
    command: MCommand,
    fresh_id: FolderId,
    now: i64,
    next: ManagementController,
    action: StoreAction,
) -> bool {
    match command {
        MCommand::ToggleEnable(id) => next == c && action == StoreAction::SetEnabled(
            id,
            !match folder_at(folders, id) {
                Some(k) => folders[k].enabled,
                None => true,
            },
        ),
        MCommand::TogglePin(id) => next == c && action == StoreAction::SetPinned(
            id,
            !match folder_at(folders, id) {
                Some(k) => folders[k].pinned,
                None => false,
            },
        ),
        MCommand::ToggleFavorite(id) => next == c && action == StoreAction::SetFavorite(
            id,
            !folders[folder_at(folders, id)->0].favorite,
        ),
        MCommand::Relocate(id, path) => match folder_at(folders, id) {
            Some(k) => next == c && action == StoreAction::Relocate(id, path),
            None => next == m_notice(c, Notice::NotFound) && action == StoreAction::Nothing,
        },
        MCommand::CreateCategory(name) => if name_fits(name@, MAX_CATEGORY_NAME_LEN) && !category_named(
            categories,
            trimmed(name@),
            None,
        ) {
            next == c && (action matches StoreAction::PutCategory(cat) && cat.id.value() == fresh_id.value()
                && cat.name@ == trimmed(name@) && cat.color is None)
        } else {
            next == m_notice(c, Notice::InvalidName) && action == StoreAction::Nothing
        },
        MCommand::RenameCategory(id, name) => if !name_fits(name@, MAX_CATEGORY_NAME_LEN) {
            next == m_notice(c, Notice::InvalidName) && action == StoreAction::Nothing
        } else {
            match first_index(categories, |x: Category| x.id == id) {
                None => next == m_notice(c, Notice::NotFound) && action == StoreAction::Nothing,
                Some(k) => if category_named(categories, trimmed(name@), Some(id)) {
                    next == m_notice(c, Notice::InvalidName) && action == StoreAction::Nothing
                } else {
                    next == c && (action matches StoreAction::RenameCategory(i, n) && i == id && n@ == trimmed(name@))
                },
            }
        },
        MCommand::DeleteCategory(id) => next == c && action == StoreAction::RemoveCategory(id),
        MCommand::CreateTag(name) => if name_fits(name@, MAX_TAG_NAME_LEN) && !tag_named(tags, name@, None) {
            next == c && (action matches StoreAction::PutTag(t) && t.id.value() == fresh_id.value() && t.name@
                == trimmed(name@))
        } else {
            next == m_notice(c, Notice::InvalidName) && action == StoreAction::Nothing
        },
        MCommand::RenameTag(id, name) => if name_fits(name@, MAX_TAG_NAME_LEN) && !tag_named(tags, name@, Some(id)) {
            next == c && (action matches StoreAction::RenameTag(i, n) && i == id && n@ == trimmed(name@))
        } else {
            next == m_notice(c, Notice::InvalidName) && action == StoreAction::Nothing
        },
        MCommand::MergeTag(id, name) => match merge_match(tags, id, name@) {
            Some(t) => next == c && action == StoreAction::MergeTag(id, t),
            None => next == m_notice(c, Notice::InvalidName) && action == StoreAction::Nothing,
        },
        MCommand::DeleteTag(id) => next == c && action == StoreAction::RemoveTag(id),
        MCommand::StartRemove(id) => match folder_at(folders, id) {
            None => next == m_notice(c, Notice::NotFound) && action == StoreAction::Nothing,
            Some(k) => {
                &&& next == ManagementController { pending_remove: next.pending_remove, ..c }
                &&& next.pending_remove matches Some(p) && p.folder_id == id && same_folder(p.payload, folders[k])
                    && p.previous_revision == revision && p.expires_at == now + UNDO_WINDOW_MS
                &&& action == StoreAction::RemoveRecord(id)
            },
        },
        MCommand::CheckPath(id) => match folder_at(folders, id) {
            None => next == m_notice(c, Notice::NotFound) && action == StoreAction::Nothing,
            Some(k) => next == c && (action matches StoreAction::ProbePath(p) && p@ == folders[k].path@),
        },
        _ => false,
    }
}

/// Whether `command` only changes the list, closes the dialog or the
/// batch, dismisses the notice, or asks for the batch to be added.
pub open spec fn is_list_command(command: MCommand) -> bool {
    ||| command is ShowPage
    ||| command is SetFilterName
    ||| command is SetFilterCategory
    ||| command is SetFilterEnabled
    ||| command is SetSort
    ||| command is CancelDraft
    ||| command is CancelBatch
    ||| command is DismissNotice
    ||| command is ApplyBatch
    ||| command is DismissImport
    ||| command is SetOneLevelImport
    ||| command is ConfirmRemove
    ||| command is Refresh
    ||| command is CancelRemove
    ||| command is DismissUndo
}

/// Whether `command` changes a record, a category or a tag.
pub open spec fn is_record_command(command: MCommand) -> bool {
    ||| command is ToggleEnable
    ||| command is TogglePin
    ||| command is ToggleFavorite
    ||| command is Relocate
    ||| command is CreateCategory
    ||| command is RenameCategory
    ||| command is DeleteCategory
    ||| command is CreateTag
    ||| command is RenameTag
    ||| command is MergeTag
    ||| command is DeleteTag
    ||| command is StartRemove
    ||| command is CheckPath
}

/// One step of the management window: from the controller `c`, the stored
/// records, categories and tags, a command, a fresh id value (for a new
/// record, category or tag) and the current time, to the next controller
/// and the store work asked for.
pub open spec fn management_step(
    c: ManagementController,
    doc: AppData,
    command: MCommand,
    fresh_id: FolderId,
    now: i64,
    next: ManagementController,
    action: StoreAction,
) -> bool {
    if is_record_command(command) {
        record_step(c, doc.folders@, doc.categories@, doc.tags@, doc.revision, command, fresh_id, now, next, action)
    } else {
        dialog_step(c, doc.folders@, command, fresh_id, now, next, action)
    }
}

/// Whether toggling a favorite names a record that exists.
pub open spec fn command_targets_known(doc: AppData, command: MCommand) -> bool {
    command matches MCommand::ToggleFavorite(id) ==> folder_at(doc.folders@, id) is Some
}

/// `c` after the store reported on `action` (`found`: the store found what
/// the action names, or for a restore, accepted it): a record removal keeps
/// its undo pending and shows `Removed`, or drops it (`SaveFailed` when the
/// save failed); a restore ends the undo with `Restored`, `CannotUndo` when
/// refused, or `SaveFailed`; a category or tag removal that found nothing
/// is `NotFound`; a failed save `SaveFailed`; a stored draft closes the
/// dialog and a stored batch empties the preview, with `Saved`.
pub open spec fn after_store_of(c: ManagementController, action: StoreAction, found: bool, saved: bool, next: ManagementController) -> bool {
    if action is RemoveRecord {
        if !found {
            next == ManagementController { pending_remove: None, ..c }
        } else if !saved {
            next == ManagementController { pending_remove: None, notice: Some(Notice::SaveFailed), ..c }
        } else {
            next == m_notice(c, Notice::Removed)
        }
    } else if action is RestoreRemoved {
        if !found {
            next == ManagementController { pending_remove: None, notice: Some(Notice::CannotUndo), ..c }
        } else if !saved {
            next == m_notice(c, Notice::SaveFailed)
        } else {
            next == ManagementController { pending_remove: None, notice: Some(Notice::Restored), ..c }
        }
    } else if (action is RemoveCategory || action is RemoveTag) && !found {
        next == m_notice(c, Notice::NotFound)
    } else if !saved {
        next == m_notice(c, Notice::SaveFailed)
    } else if action is PutFolder {
        next == ManagementController { draft: None, notice: Some(Notice::Saved), ..c }
    } else if action is AddBatch {
        next == ManagementController { batch: next.batch, notice: Some(Notice::Saved), ..c } && next.batch@.len() == 0
    } else if action is SetOneLevelImport {
        next == ManagementController {
            one_level_import_setting: action->SetOneLevelImport_0,
            import_offer: if action->SetOneLevelImport_0 {
                c.import_offer
            } else {
                None
            },
            notice: Some(Notice::Saved),
            ..c
        }
    } else {
        next == m_notice(c, Notice::Saved)
    }
}

impl ManagementController {
    /// A controller on the folder list, sorted by name, unfiltered, with no
    /// dialog, batch, offer or notice, and the given one-level import
    /// setting.
    pub fn new(one_level_import_setting: bool) -> (r: ManagementController)
        ensures
            r.one_level_import_setting == one_level_import_setting,
            r.import_offer is None,
            r.pending_remove is None,
            r.page == Page::Folders,
            r.filter.name@.len() == 0,
            r.filter.category is None,
            r.filter.enabled is None,
            r.sort == FolderSort::Name,
            r.draft is None,
            r.batch@.len() == 0,
            r.notice is None,
    {
        ManagementController {
            page: Page::Folders,
            filter: FolderFilter { name: String::new(), category: None, enabled: None },
            sort: FolderSort::Name,
            draft: None,
            batch: Vec::new(),
            notice: None,
            one_level_import_setting,
            import_offer: None,
            pending_remove: None,
        }
    }

    /// The rows the folder list shows for the stored document (see
    /// [`folder_rows`](crate::presentation::management::folder_rows)).
    pub fn rows(&self, doc: &AppData) -> (r: Vec<FolderRow>) {
        crate::presentation::management::folder_rows(&doc.folders, &doc.categories, &doc.tags, &self.filter, self.sort)
    }

    fn open_edit(self, folders: &[FolderEntry], id: FolderId) -> (r: ManagementController)
        ensures
            opened_edit(self, folders@, id, r),
    {
        let mut c = self;
        match first_with_id(folders, id) {
            Some(k) => {
                c.draft = Some(FolderDraft::for_edit(&folders[k]));
                c.batch = Vec::new();
                c
            },
            None => {
                c.notice = Some(Notice::NotFound);
                c
            },
        }
    }

    /// Takes the outcome of a [`StoreAction::ProbePath`]: `PathAccessible`
    /// or `PathInaccessible`; the record is kept either way.
    pub fn after_probe(self, accessible: bool) -> (r: ManagementController)
        ensures
            r == m_notice(self, if accessible { Notice::PathAccessible } else { Notice::PathInaccessible }),
    {
        let mut c = self;
        c.notice = Some(if accessible { Notice::PathAccessible } else { Notice::PathInaccessible });
        c
    }

    fn open_single(self, path: String) -> (r: ManagementController)
        ensures
            opened_single(self, path@, r),
    {
        let mut c = self;
        c.draft = Some(FolderDraft::for_add(path));
        c.import_offer = None;
        c
    }

    fn pick(self, folders: &[FolderEntry], paths: Vec<String>) -> (r: (ManagementController, StoreAction))
        ensures
            picked(self, folders@, paths@, r.0, r.1),
    {
        let mut c = self;
        if paths.len() == 0 {
            return (c, StoreAction::Nothing);
        }
        if paths.len() == 1 {
            let path = paths[0].clone();
            if c.one_level_import_setting {
                return (c, StoreAction::CountChildren(path));
            }
            return (c.open_single(path), StoreAction::Nothing);
        }
        c.batch = batch_items(&paths, folders);
        c.draft = None;
        (c, StoreAction::Nothing)
    }

    /// Takes the number of direct children counted for the picked `path`:
    /// with the setting on and at least one child (capped at the one-level
    /// limit), the choice is offered; otherwise the parent's draft opens.
    pub fn after_child_count(self, path: String, count: usize) -> (r: ManagementController)
        ensures
            ({
                let capped = if count < MAX_ONE_LEVEL_IMPORT {
                    count
                } else {
                    MAX_ONE_LEVEL_IMPORT
                };
                if self.one_level_import_setting && capped > 0 {
                    r == ManagementController {
                        import_offer: Some(ImportOffer { parent_path: path, child_count: capped as usize }),
                        ..self
                    }
                } else {
                    opened_single(self, path@, r)
                }
            }),
    {
        let capped = if count < MAX_ONE_LEVEL_IMPORT {
            count
        } else {
            MAX_ONE_LEVEL_IMPORT
        };
        match child_import_offer(self.one_level_import_setting, capped) {
            ChildImportOffer::ParentOnly => self.open_single(path),
            ChildImportOffer::Choose { child_count } => {
                let mut c = self;
                c.import_offer = Some(ImportOffer { parent_path: path, child_count });
                c
            },
        }
    }

    /// Takes the direct children listed for the offered parent: the offer
    /// closes; with no child, `ImportLimited` and the parent's draft; else
    /// the children are picked (see [`picked`]).
    pub fn after_children(self, folders: &[FolderEntry], parent: String, children: Vec<String>) -> (r: (
        ManagementController,
        StoreAction,
    ))
        ensures
            children@.len() == 0 ==> opened_single(
                ManagementController { notice: Some(Notice::ImportLimited), import_offer: None, ..self },
                parent@,
                r.0,
            ) && r.1 == StoreAction::Nothing,
            children@.len() > 0 ==> picked(
                ManagementController { import_offer: None, ..self },
                folders@,
                children@,
                r.0,
                r.1,
            ),
    {
        let mut c = self;
        c.import_offer = None;
        if children.len() == 0 {
            c.notice = Some(Notice::ImportLimited);
            return (c.open_single(parent), StoreAction::Nothing);
        }
        c.pick(folders, children)
    }

    #[verifier::spinoff_prover]
    #[verifier::rlimit(50)]
    fn list_handle(self, folders: &[FolderEntry], command: MCommand, fresh_id: FolderId, now_ms: i64) -> (r: (
        ManagementController,
        StoreAction,
    ))
        requires
            is_list_command(command),
        ensures
            dialog_step(self, folders@, command, fresh_id, now_ms, r.0, r.1),
    {
        let mut c = self;
        match command {
            MCommand::ShowPage(p) => {
                c.page = p;
                (c, StoreAction::Nothing)
            },
            MCommand::SetFilterName(n) => {
                c.filter.name = n;
                (c, StoreAction::Nothing)
            },
            MCommand::SetFilterCategory(x) => {
                c.filter.category = x;
                (c, StoreAction::Nothing)
            },
            MCommand::SetFilterEnabled(x) => {
                c.filter.enabled = x;
                (c, StoreAction::Nothing)
            },
            MCommand::SetSort(x) => {
                c.sort = x;
                (c, StoreAction::Nothing)
            },
            MCommand::CancelDraft => {
                c.draft = None;
                c.import_offer = None;
                (c, StoreAction::Nothing)
            },
            MCommand::CancelBatch => {
                c.batch = Vec::new();
                (c, StoreAction::Nothing)
            },
            MCommand::DismissNotice => {
                c.notice = None;
                (c, StoreAction::Nothing)
            },
            MCommand::ApplyBatch => (c, StoreAction::AddBatch),
            MCommand::DismissImport => {
                c.import_offer = None;
                (c, StoreAction::Nothing)
            },
            MCommand::SetOneLevelImport(e) => (c, StoreAction::SetOneLevelImport(e)),
            MCommand::ConfirmRemove | MCommand::Refresh => (c, StoreAction::Nothing),
            MCommand::CancelRemove | MCommand::DismissUndo => {
                c.pending_remove = None;
                (c, StoreAction::Nothing)
            },
            _ => (c, StoreAction::Nothing),
        }
    }

    #[verifier::spinoff_prover]
    #[verifier::rlimit(50)]
    fn draft_handle(self, folders: &[FolderEntry], command: MCommand, fresh_id: FolderId, now_ms: i64) -> (r: (
        ManagementController,
        StoreAction,
    ))
        requires
            !is_list_command(command),
            !is_record_command(command),
        ensures
            dialog_step(self, folders@, command, fresh_id, now_ms, r.0, r.1),
    {
        let mut c = self;
        match command {
            MCommand::OpenAdd | MCommand::OpenManual => {
                let draft = FolderDraft::for_add(String::new());
                proof {
                    lemma_empty_add_draft(draft);
                }
                c.draft = Some(draft);
                c.batch = Vec::new();
                c.import_offer = None;
                (c, StoreAction::Nothing)
            },
            MCommand::OpenPickPaths(paths) => c.pick(folders, paths),
            MCommand::ChooseImport(choice) => {
                let parent = match &c.import_offer {
                    None => None,
                    Some(offer) => Some(offer.parent_path.clone()),
                };
                match parent {
                    None => (c, StoreAction::Nothing),
                    Some(p) => match choice {
                        ChildImportChoice::ParentOnly => (c.open_single(p), StoreAction::Nothing),
                        ChildImportChoice::DirectChildren => (c, StoreAction::ListChildren(p)),
                    },
                }
            },
            MCommand::EditFolder(id) => (c.open_edit(folders, id), StoreAction::Nothing),
            MCommand::UndoRemove => {
                let expires = match &c.pending_remove {
                    None => None,
                    Some(p) => Some(p.expires_at),
                };
                match expires {
                    None => (c, StoreAction::Nothing),
                    Some(at) => if now_ms >= at {
                        c.pending_remove = None;
                        c.notice = Some(Notice::UndoExpired);
                        (c, StoreAction::Nothing)
                    } else {
                        (c, StoreAction::RestoreRemoved)
                    },
                }
            },
            MCommand::EditPath(_) | MCommand::EditName(_) | MCommand::EditNote(_) | MCommand::ToggleDraftPinned
            | MCommand::ToggleDraftFavorite | MCommand::SetDraftEnabled(_) | MCommand::SetDraftCategory(_)
            | MCommand::SetDraftTag(..) | MCommand::SetDraftWeight(_) | MCommand::CycleDraftColor => match c.draft {
                None => (c, StoreAction::Nothing),
                Some(d) => {
                    c.draft = Some(edit_draft(d, edit_of(command)));
                    (c, StoreAction::Nothing)
                },
            },
            MCommand::SaveDraft => {
                let outcome = match &c.draft {
                    None => None,
                    Some(d) => Some(save_draft(d, folders, fresh_id, now_ms)),
                };
                match outcome {
                    None => (c, StoreAction::Nothing),
                    Some(DraftOutcome::Commit(e)) => (c, StoreAction::PutFolder(e)),
                    Some(DraftOutcome::Refused(n)) => {
                        c.notice = Some(n);
                        (c, StoreAction::Nothing)
                    },
                    Some(DraftOutcome::EditExisting(_)) => (c, StoreAction::Nothing),
                }
            },
            MCommand::ResolveDuplicate(policy) => {
                let outcome = match &c.draft {
                    None => None,
                    Some(d) => Some(resolve_duplicate(d, folders, policy, fresh_id, now_ms)),
                };
                match outcome {
                    None => (c, StoreAction::Nothing),
                    Some(DraftOutcome::Commit(e)) => (c, StoreAction::PutFolder(e)),
                    Some(DraftOutcome::Refused(n)) => {
                        c.notice = Some(n);
                        (c, StoreAction::Nothing)
                    },
                    Some(DraftOutcome::EditExisting(id)) => (c.open_edit(folders, id), StoreAction::Nothing),
                }
            },
            _ => (c, StoreAction::Nothing),
        }
    }

    #[verifier::spinoff_prover]
    #[verifier::rlimit(50)]
    fn record_handle(self, doc: &AppData, command: MCommand, fresh_id: FolderId, now_ms: i64) -> (r: (
        ManagementController,
        StoreAction,
    ))
        requires
            is_record_command(command),
            command_targets_known(*doc, command),
            command matches MCommand::StartRemove(_) ==> i64::MIN <= now_ms + UNDO_WINDOW_MS <= i64::MAX,
        ensures
            record_step(self, doc.folders@, doc.categories@, doc.tags@, doc.revision, command, fresh_id, now_ms, r.0, r.1),
    {
        let mut c = self;
        let folders = doc.folders.as_slice();
        match command {
            MCommand::ToggleEnable(id) => {
                let enabled = match first_with_id(folders, id) {
                    Some(k) => folders[k].enabled,
                    None => true,
                };
                (c, StoreAction::SetEnabled(id, !enabled))
            },
            MCommand::TogglePin(id) => {
                let pinned = match first_with_id(folders, id) {
                    Some(k) => folders[k].pinned,
                    None => false,
                };
                (c, StoreAction::SetPinned(id, !pinned))
            },
            MCommand::ToggleFavorite(id) => {
                let favorite = match first_with_id(folders, id) {
                    Some(k) => folders[k].favorite,
                    None => false,
                };
                (c, StoreAction::SetFavorite(id, !favorite))
            },
            MCommand::Relocate(id, path) => match first_with_id(folders, id) {
                Some(_) => (c, StoreAction::Relocate(id, path)),
                None => {
                    c.notice = Some(Notice::NotFound);
                    (c, StoreAction::Nothing)
                },
            },
            MCommand::CreateCategory(name) => match check_new_category(name.as_str(), doc.categories.as_slice()) {
                Ok(n) => {
                    let id = CategoryId::from_u128(fresh_id.as_u128());
                    (c, StoreAction::PutCategory(Category { id, name: n, color: None }))
                },
                Err(e) => {
                    c.notice = Some(e);
                    (c, StoreAction::Nothing)
                },
            },
            MCommand::RenameCategory(id, name) => match check_category_rename(
                id,
                name.as_str(),
                doc.categories.as_slice(),
            ) {
                Ok((_, n)) => (c, StoreAction::RenameCategory(id, n)),
                Err(e) => {
                    c.notice = Some(e);
                    (c, StoreAction::Nothing)
                },
            },
            MCommand::DeleteCategory(id) => (c, StoreAction::RemoveCategory(id)),
            MCommand::CreateTag(name) => match check_new_tag(name.as_str(), doc.tags.as_slice()) {
                Ok(n) => {
                    let id = TagId::from_u128(fresh_id.as_u128());
                    (c, StoreAction::PutTag(Tag { id, name: n }))
                },
                Err(e) => {
                    c.notice = Some(e);
                    (c, StoreAction::Nothing)
                },
            },
            MCommand::RenameTag(id, name) => match check_tag_rename(id, name.as_str(), doc.tags.as_slice()) {
                Ok(n) => (c, StoreAction::RenameTag(id, n)),
                Err(e) => {
                    c.notice = Some(e);
                    (c, StoreAction::Nothing)
                },
            },
            MCommand::MergeTag(id, name) => match check_tag_merge(id, name.as_str(), doc.tags.as_slice()) {
                Ok(t) => (c, StoreAction::MergeTag(id, t)),
                Err(e) => {
                    c.notice = Some(e);
                    (c, StoreAction::Nothing)
                },
            },
            MCommand::DeleteTag(id) => (c, StoreAction::RemoveTag(id)),
            MCommand::StartRemove(id) => match first_with_id(folders, id) {
                None => {
                    c.notice = Some(Notice::NotFound);
                    (c, StoreAction::Nothing)
                },
                Some(k) => {
                    let payload = copy_folder(&folders[k], folders[k].id, folders[k].created_at);
                    c.pending_remove = Some(
                        PendingRemove {
                            folder_id: id,
                            payload,
                            previous_revision: doc.revision,
                            expires_at: now_ms + UNDO_WINDOW_MS,
                        },
                    );
                    (c, StoreAction::RemoveRecord(id))
                },
            },
            MCommand::CheckPath(id) => match first_with_id(folders, id) {
                None => {
                    c.notice = Some(Notice::NotFound);
                    (c, StoreAction::Nothing)
                },
                Some(k) => (c, StoreAction::ProbePath(folders[k].path.clone())),
            },
            _ => (c, StoreAction::Nothing),
        }
    }

    /// Carries out one command (see [`management_step`]): the next
    /// controller and the store work it asks for. `fresh_id` is a new id
    /// (its value also names a new category or tag); `now_ms` the time.
    pub fn handle(self, doc: &AppData, command: MCommand, fresh_id: FolderId, now_ms: i64) -> (r: (
        ManagementController,
        StoreAction,
    ))
        requires
            command_targets_known(*doc, command),
            command matches MCommand::StartRemove(_) ==> i64::MIN <= now_ms + UNDO_WINDOW_MS <= i64::MAX,
        ensures
            management_step(self, *doc, command, fresh_id, now_ms, r.0, r.1),
    {
        match command {
            MCommand::ToggleEnable(_)
            | MCommand::TogglePin(_)
            | MCommand::ToggleFavorite(_)
            | MCommand::Relocate(..)
            | MCommand::CreateCategory(_)
            | MCommand::RenameCategory(..)
            | MCommand::DeleteCategory(_)
            | MCommand::CreateTag(_)
            | MCommand::RenameTag(..)
            | MCommand::MergeTag(..)
            | MCommand::DeleteTag(_)
            | MCommand::StartRemove(_)
            | MCommand::CheckPath(_) => self.record_handle(doc, command, fresh_id, now_ms),
            MCommand::ShowPage(_)
            | MCommand::SetFilterName(_)
            | MCommand::SetFilterCategory(_)
            | MCommand::SetFilterEnabled(_)
            | MCommand::SetSort(_)
            | MCommand::CancelDraft
            | MCommand::CancelBatch
            | MCommand::DismissNotice
            | MCommand::DismissImport
            | MCommand::SetOneLevelImport(_)
            | MCommand::ConfirmRemove
            | MCommand::Refresh
            | MCommand::CancelRemove
            | MCommand::DismissUndo
            | MCommand::ApplyBatch => self.list_handle(doc.folders.as_slice(), command, fresh_id, now_ms),
            _ => self.draft_handle(doc.folders.as_slice(), command, fresh_id, now_ms),
        }
    }

    /// Takes the store's report on `action` (see [`after_store_of`]):
    /// whether a removal found its record, and whether the save succeeded.
    pub fn after_store(self, action: &StoreAction, found: bool, saved: bool) -> (r: ManagementController)
        ensures
            after_store_of(self, *action, found, saved, r),
    {
        let mut c = self;
        match action {
            StoreAction::RemoveRecord(_) => {
                if !found {
                    c.pending_remove = None;
                } else if !saved {
                    c.pending_remove = None;
                    c.notice = Some(Notice::SaveFailed);
                } else {
                    c.notice = Some(Notice::Removed);
                }
                return c;
            },
            StoreAction::RestoreRemoved => {
                if !found {
                    c.pending_remove = None;
                    c.notice = Some(Notice::CannotUndo);
                } else if !saved {
                    c.notice = Some(Notice::SaveFailed);
                } else {
                    c.pending_remove = None;
                    c.notice = Some(Notice::Restored);
                }
                return c;
            },
            _ => {},
        }
        let removal = match action {
            StoreAction::RemoveCategory(_) | StoreAction::RemoveTag(_) => true,
            _ => false,
        };
        if removal && !found {
            c.notice = Some(Notice::NotFound);
            return c;
        }
        if !saved {
            c.notice = Some(Notice::SaveFailed);
            return c;
        }
        match action {
            StoreAction::PutFolder(_) => {
                c.draft = None;
            },
            StoreAction::AddBatch => {
                c.batch = Vec::new();
            },
            StoreAction::SetOneLevelImport(e) => {
                c.one_level_import_setting = *e;
                if !*e {
                    c.import_offer = None;
                }
            },
            _ => {},
        }
        c.notice = Some(Notice::Saved);
        c
    }
}

proof fn lemma_empty_add_draft(d: FolderDraft)
    requires
        d.id is None,
        d.display_name@ == suggested_name_of(d.path@),
        d.path@ == Seq::<char>::empty(),
        d.aliases@.len() == 0,
        d.category_id is None,
        d.tag_ids@.len() == 0,
        d.note@.len() == 0,
        !d.pinned,
        !d.favorite,
        d.manual_weight == 0,
        d.enabled,
        d.color is None,
    ensures
        empty_add_draft(d),
{
}

} // verus!
