//! Changes to the category and tag records that the settings window asks
//! for: renaming one record by id, and merging one tag into another.

use vstd::prelude::*;

use crate::domain::{Category, CategoryId, FolderEntry, FolderId, Tag, TagId};
use crate::order::{first_index, lemma_first_index};
use crate::presentation::manager::without_tag as tags_of_without;
use crate::presentation::management::contains_tag;
use crate::presentation::manager::{toggle_draft_tag, toggled_tags, without_tag};
use crate::search::search_entry::copy_strings;

use super::import_export::{copy_folder, copy_tag_ids, same_folder};

verus! {

fn copy_category(c: &Category) -> (r: Category)
    ensures
        r == *c,
{
    Category { id: c.id, name: c.name.clone(), color: c.color }
}

fn copy_tag(t: &Tag) -> (r: Tag)
    ensures
        r == *t,
{
    Tag { id: t.id, name: t.name.clone() }
}

/// The categories with the first one of id `id` renamed to `name`, or
/// `None` when no category has that id.
pub fn rename_category_record(cats: &Vec<Category>, id: CategoryId, name: String) -> (r: Option<Vec<Category>>)
    ensures
        match first_index(cats@, |c: Category| c.id == id) {
            None => r is None,
            Some(k) => r matches Some(v) && v@ == cats@.update(k, Category { name, ..cats@[k] }),
        },
{
    let mut i: usize = 0;
    while i < cats.len() && cats[i].id != id
        invariant
            i <= cats@.len(),
            forall|j: int| 0 <= j < i ==> !(#[trigger] cats@[j].id == id),
        decreases cats@.len() - i,
    {
        i = i + 1;
    }
    let found: Option<usize> = if i < cats.len() {
        Some(i)
    } else {
        None
    };
    let ghost p = |c: Category| c.id == id;
    match found {
        None => {
            proof {
                assert forall|j: int| 0 <= j < cats@.len() implies !p(#[trigger] cats@[j]) by {}
                lemma_first_index(cats@, p, cats@.len() as int);
            }
            None
        },
        Some(k) => {
            proof {
                assert forall|j: int| 0 <= j < k implies !p(#[trigger] cats@[j]) by {}
                lemma_first_index(cats@, p, k as int);
            }
            let mut out: Vec<Category> = Vec::new();
            for j in 0..cats.len()
                invariant
                    k < cats@.len(),
                    j <= k ==> out@ == cats@.take(j as int),
                    j > k ==> out@ == cats@.update(k as int, Category { name, ..cats@[k as int] }).take(j as int),
            {
                let ghost target = cats@.update(k as int, Category { name, ..cats@[k as int] });
                if j == k {
                    let renamed = Category { id: cats[j].id, name: name.clone(), color: cats[j].color };
                    out.push(renamed);
                    assert(out@ =~= target.take(j + 1));
                } else {
                    out.push(copy_category(&cats[j]));
                    if j < k {
                        assert(out@ =~= cats@.take(j + 1));
                    } else {
                        assert(out@ =~= target.take(j + 1));
                    }
                }
            }
            assert(out@ =~= cats@.update(k as int, Category { name, ..cats@[k as int] }));
            Some(out)
        },
    }
}

/// The tags with the first one of id `id` renamed to `name`, or `None` when
/// no tag has that id.
pub fn rename_tag_record(tags: &Vec<Tag>, id: TagId, name: String) -> (r: Option<Vec<Tag>>)
    ensures
        match first_index(tags@, |t: Tag| t.id == id) {
            None => r is None,
            Some(k) => r matches Some(v) && v@ == tags@.update(k, Tag { name, ..tags@[k] }),
        },
{
    let mut i: usize = 0;
    while i < tags.len() && tags[i].id != id
        invariant
            i <= tags@.len(),
            forall|j: int| 0 <= j < i ==> !(#[trigger] tags@[j].id == id),
        decreases tags@.len() - i,
    {
        i = i + 1;
    }
    let found: Option<usize> = if i < tags.len() {
        Some(i)
    } else {
        None
    };
    let ghost p = |t: Tag| t.id == id;
    match found {
        None => {
            proof {
                assert forall|j: int| 0 <= j < tags@.len() implies !p(#[trigger] tags@[j]) by {}
                lemma_first_index(tags@, p, tags@.len() as int);
            }
            None
        },
        Some(k) => {
            proof {
                assert forall|j: int| 0 <= j < k implies !p(#[trigger] tags@[j]) by {}
                lemma_first_index(tags@, p, k as int);
            }
            let mut out: Vec<Tag> = Vec::new();
            for j in 0..tags.len()
                invariant
                    k < tags@.len(),
                    j <= k ==> out@ == tags@.take(j as int),
                    j > k ==> out@ == tags@.update(k as int, Tag { name, ..tags@[k as int] }).take(j as int),
            {
                let ghost target = tags@.update(k as int, Tag { name, ..tags@[k as int] });
                if j == k {
                    let renamed = Tag { id: tags[j].id, name: name.clone() };
                    out.push(renamed);
                    assert(out@ =~= target.take(j + 1));
                } else {
                    out.push(copy_tag(&tags[j]));
                    if j < k {
                        assert(out@ =~= tags@.take(j + 1));
                    } else {
                        assert(out@ =~= target.take(j + 1));
                    }
                }
            }
            assert(out@ =~= tags@.update(k as int, Tag { name, ..tags@[k as int] }));
            Some(out)
        },
    }
}

/// A record's tag ids after merging `source` into `target`: a record
/// carrying `source` loses every occurrence of it and carries `target`
/// once; any other record is unchanged.
pub open spec fn merged_tag_ids(ids: Seq<TagId>, source: TagId, target: TagId) -> Seq<TagId> {
    if ids.contains(source) {
        toggled_tags(without_tag(ids, source), target, true)
    } else {
        ids
    }
}

/// `tags` without the tags of id `id`, in order.
pub open spec fn tags_without(tags: Seq<Tag>, id: TagId) -> Seq<Tag>
    decreases tags.len(),
{
    if tags.len() == 0 {
        seq![]
    } else if tags.last().id == id {
        tags_without(tags.drop_last(), id)
    } else {
        tags_without(tags.drop_last(), id).push(tags.last())
    }
}

fn with_tag_ids(f: &FolderEntry, tag_ids: Vec<TagId>) -> (r: FolderEntry)
    ensures
        r.tag_ids == tag_ids,
        same_folder(FolderEntry { tag_ids: f.tag_ids, ..r }, *f),
{
    FolderEntry {
        id: f.id,
        display_name: f.display_name.clone(),
        aliases: copy_strings(&f.aliases),
        path: f.path.clone(),
        enabled: f.enabled,
        favorite: f.favorite,
        pinned: f.pinned,
        manual_weight: f.manual_weight,
        category_id: f.category_id,
        tag_ids,
        note: f.note.clone(),
        color: f.color,
        sort_order: f.sort_order,
        created_at: f.created_at,
        updated_at: f.updated_at,
        last_opened_at: f.last_opened_at,
        open_count: f.open_count,
    }
}

/// Merges tag `source` into tag `target`: every record's tags change as
/// [`merged_tag_ids`] says (all else is copied), and `source` leaves the
/// tag list.
pub fn merge_tag_records(folders: &Vec<FolderEntry>, tags: &Vec<Tag>, source: TagId, target: TagId) -> (r: (
    Vec<FolderEntry>,
    Vec<Tag>,
))
    ensures
        r.0@.len() == folders@.len(),
        forall|k: int| 0 <= k < folders@.len() ==> {
            &&& (#[trigger] r.0@[k]).tag_ids@ == merged_tag_ids(folders@[k].tag_ids@, source, target)
            &&& same_folder(FolderEntry { tag_ids: folders@[k].tag_ids, ..r.0@[k] }, folders@[k])
        },
        r.1@ == tags_without(tags@, source),
{
    let mut out: Vec<FolderEntry> = Vec::new();
    for i in 0..folders.len()
        invariant
            out@.len() == i,
            forall|k: int| 0 <= k < i ==> {
                &&& (#[trigger] out@[k]).tag_ids@ == merged_tag_ids(folders@[k].tag_ids@, source, target)
                &&& same_folder(FolderEntry { tag_ids: folders@[k].tag_ids, ..out@[k] }, folders@[k])
            },
    {
        let f = &folders[i];
        let ids = if contains_tag(&f.tag_ids, source) {
            let stripped = toggle_draft_tag(&f.tag_ids, source, false);
            toggle_draft_tag(&stripped, target, true)
        } else {
            copy_tag_ids(&f.tag_ids)
        };
        out.push(with_tag_ids(f, ids));
    }
    let mut kept: Vec<Tag> = Vec::new();
    for i in 0..tags.len()
        invariant
            kept@ == tags_without(tags@.take(i as int), source),
    {
        assert(tags@.take(i + 1).drop_last() == tags@.take(i as int));
        assert(tags@.take(i + 1).last() == tags@[i as int]);
        if tags[i].id != source {
            kept.push(copy_tag(&tags[i]));
        }
    }
    assert(tags@.take(tags@.len() as int) == tags@);
    (out, kept)
}

fn copy_same(f: &FolderEntry) -> (r: FolderEntry)
    ensures
        same_folder(r, *f),
{
    copy_folder(f, f.id, f.created_at)
}

fn position_of(folders: &Vec<FolderEntry>, id: FolderId) -> (r: Option<usize>)
    ensures
        match r {
            Some(k) => first_index(folders@, |f: FolderEntry| f.id == id) == Some(k as int) && k < folders@.len(),
            None => first_index(folders@, |f: FolderEntry| f.id == id) is None,
        },
{
    let mut i: usize = 0;
    while i < folders.len() && folders[i].id != id
        invariant
            i <= folders@.len(),
            forall|j: int| 0 <= j < i ==> #[trigger] folders@[j].id != id,
        decreases folders@.len() - i,
    {
        i = i + 1;
    }
    proof {
        let p = |f: FolderEntry| f.id == id;
        assert forall|j: int| 0 <= j < i implies !p(#[trigger] folders@[j]) by {}
        lemma_first_index(folders@, p, i as int);
    }
    if i < folders.len() {
        Some(i)
    } else {
        None
    }
}

fn replace_at(folders: &Vec<FolderEntry>, k: usize, entry: FolderEntry) -> (r: Vec<FolderEntry>)
    requires
        k <= folders@.len(),
    ensures
        r@.len() == if k < folders@.len() { folders@.len() } else { folders@.len() + 1 },
        r@[k as int] == entry,
        forall|j: int| 0 <= j < folders@.len() && j != k ==> same_folder(#[trigger] r@[j], folders@[j]),
{
    let mut out: Vec<FolderEntry> = Vec::new();
    for j in 0..k
        invariant
            k <= folders@.len(),
            out@.len() == j,
            forall|i: int| 0 <= i < j ==> same_folder(#[trigger] out@[i], folders@[i]),
    {
        out.push(copy_same(&folders[j]));
    }
    let ghost placed = entry;
    out.push(entry);
    let start: usize = if k < folders.len() {
        k + 1
    } else {
        folders.len()
    };
    let mut j: usize = start;
    while j < folders.len()
        invariant
            k <= folders@.len(),
            k < folders@.len() ==> start == k + 1,
            k == folders@.len() ==> start == folders@.len(),
            start <= j <= folders@.len(),
            out@.len() == if k < folders@.len() { j as int } else { j + 1 },
            out@[k as int] == placed,
            forall|i: int| 0 <= i < k ==> same_folder(#[trigger] out@[i], folders@[i]),
            forall|i: int| k < i < j ==> same_folder(#[trigger] out@[i], folders@[i]),
        decreases folders@.len() - j,
    {
        out.push(copy_same(&folders[j]));
        j = j + 1;
    }
    out
}

/// `folders` with `entry` stored: it replaces the first record of its id,
/// or is appended; every other record is copied.
pub fn put_folder_record(folders: &Vec<FolderEntry>, entry: FolderEntry) -> (r: Vec<FolderEntry>)
    ensures
        match first_index(folders@, |f: FolderEntry| f.id == entry.id) {
            Some(k) => {
                &&& r@.len() == folders@.len()
                &&& r@[k] == entry
                &&& forall|j: int| 0 <= j < folders@.len() && j != k ==> same_folder(#[trigger] r@[j], folders@[j])
            },
            None => {
                &&& r@.len() == folders@.len() + 1
                &&& r@[folders@.len() as int] == entry
                &&& forall|j: int| 0 <= j < folders@.len() ==> same_folder(#[trigger] r@[j], folders@[j])
            },
        },
{
    let k = match position_of(folders, entry.id) {
        Some(k) => k,
        None => folders.len(),
    };
    replace_at(folders, k, entry)
}

/// A change to one record's state.
#[derive(Debug, Clone, PartialEq, Eq)]
pub enum FolderChange {
    Enabled(bool),
    Pinned(bool),
    Favorite(bool),
    Path(String),
}

/// Whether `r` is `f` with `change` applied (everything else copied).
pub open spec fn changed_folder(r: FolderEntry, f: FolderEntry, change: FolderChange) -> bool {
    match change {
        FolderChange::Enabled(e) => r.enabled == e && same_folder(FolderEntry { enabled: f.enabled, ..r }, f),
        FolderChange::Pinned(p) => r.pinned == p && same_folder(FolderEntry { pinned: f.pinned, ..r }, f),
        FolderChange::Favorite(v) => r.favorite == v && same_folder(FolderEntry { favorite: f.favorite, ..r }, f),
        FolderChange::Path(p) => r.path@ == p@ && same_folder(FolderEntry { path: f.path, ..r }, f),
    }
}

fn apply_change(f: &FolderEntry, change: FolderChange) -> (r: FolderEntry)
    ensures
        changed_folder(r, *f, change),
{
    let c = copy_same(f);
    match change {
        FolderChange::Enabled(e) => FolderEntry { enabled: e, ..c },
        FolderChange::Pinned(p) => FolderEntry { pinned: p, ..c },
        FolderChange::Favorite(v) => FolderEntry { favorite: v, ..c },
        FolderChange::Path(p) => FolderEntry { path: p, ..c },
    }
}

/// `folders` with `change` applied to the first record of id `id`, or
/// `None` when there is none.
pub fn change_folder_record(folders: &Vec<FolderEntry>, id: FolderId, change: FolderChange) -> (r: Option<Vec<FolderEntry>>)
    ensures
        match first_index(folders@, |f: FolderEntry| f.id == id) {
            None => r is None,
            Some(k) => r matches Some(v) && v@.len() == folders@.len() && changed_folder(v@[k], folders@[k], change)
                && forall|j: int| 0 <= j < folders@.len() && j != k ==> same_folder(#[trigger] v@[j], folders@[j]),
        },
{
    match position_of(folders, id) {
        None => None,
        Some(k) => {
            let changed = apply_change(&folders[k], change);
            Some(replace_at(folders, k, changed))
        },
    }
}

/// The revision after `previous` (staying at the largest revision).
pub open spec fn revision_after(previous: u64) -> int {
    if previous == u64::MAX {
        previous as int
    } else {
        previous + 1
    }
}

/// The record list after an undo: a copy of `payload` appended, provided
/// the removal is still the document's last save (`current_revision` is
/// the revision after `previous_revision`); otherwise `None`.
pub fn restore_removed_record(
    folders: &Vec<FolderEntry>,
    payload: &FolderEntry,
    previous_revision: u64,
    current_revision: u64,
) -> (r: Option<Vec<FolderEntry>>)
    ensures
        revision_after(previous_revision) != current_revision ==> r is None,
        revision_after(previous_revision) == current_revision ==> (r matches Some(v) && v@.len() == folders@.len() + 1
            && same_folder(v@[folders@.len() as int], *payload) && forall|j: int|
            0 <= j < folders@.len() ==> same_folder(#[trigger] v@[j], folders@[j])),
{
    if previous_revision.saturating_add(1) != current_revision {
        return None;
    }
    let copy = copy_same(payload);
    let ghost placed = copy;
    let out = replace_at(folders, folders.len(), copy);
    assert(same_folder(placed, *payload));
    Some(out)
}

/// Removes category `id` and every reference to it: `None` when no
/// category has that id; otherwise the categories without it and the
/// records, each copied, with a reference to it cleared.
pub fn remove_category_records(cats: &Vec<Category>, folders: &Vec<FolderEntry>, id: CategoryId) -> (r: Option<(
    Vec<Category>,
    Vec<FolderEntry>,
)>)
    ensures
        !(exists|j: int| 0 <= j < cats@.len() && #[trigger] cats@[j].id == id) ==> r is None,
        (exists|j: int| 0 <= j < cats@.len() && #[trigger] cats@[j].id == id) ==> (r matches Some((c, f)) && c@
            == categories_without(cats@, id) && f@.len() == folders@.len() && forall|k: int|
            0 <= k < folders@.len() ==> {
                &&& (#[trigger] f@[k]).category_id == if folders@[k].category_id == Some(id) {
                    None
                } else {
                    folders@[k].category_id
                }
                &&& same_folder(FolderEntry { category_id: folders@[k].category_id, ..f@[k] }, folders@[k])
            }),
{
    let mut known = false;
    let mut kept: Vec<Category> = Vec::new();
    for i in 0..cats.len()
        invariant
            kept@ == categories_without(cats@.take(i as int), id),
            known == (exists|j: int| 0 <= j < i && #[trigger] cats@[j].id == id),
    {
        assert(cats@.take(i + 1).drop_last() == cats@.take(i as int));
        assert(cats@.take(i + 1).last() == cats@[i as int]);
        if cats[i].id == id {
            known = true;
        } else {
            kept.push(copy_category(&cats[i]));
        }
    }
    assert(cats@.take(cats@.len() as int) == cats@);
    if !known {
        return None;
    }
    let mut out: Vec<FolderEntry> = Vec::new();
    for k in 0..folders.len()
        invariant
            out@.len() == k,
            forall|i: int| 0 <= i < k ==> {
                &&& (#[trigger] out@[i]).category_id == if folders@[i].category_id == Some(id) {
                    None
                } else {
                    folders@[i].category_id
                }
                &&& same_folder(FolderEntry { category_id: folders@[i].category_id, ..out@[i] }, folders@[i])
            },
    {
        let c = copy_same(&folders[k]);
        let category_id = if folders[k].category_id == Some(id) {
            None
        } else {
            folders[k].category_id
        };
        out.push(FolderEntry { category_id, ..c });
    }
    Some((kept, out))
}

/// `cats` without the categories of id `id`, in order.
pub open spec fn categories_without(cats: Seq<Category>, id: CategoryId) -> Seq<Category>
    decreases cats.len(),
{
    if cats.len() == 0 {
        seq![]
    } else if cats.last().id == id {
        categories_without(cats.drop_last(), id)
    } else {
        categories_without(cats.drop_last(), id).push(cats.last())
    }
}

/// Removes tag `id` and every use of it: `None` when no tag has that id;
/// otherwise the tags without it and the records, each copied, without it
/// among their tags.
pub fn remove_tag_records(tags: &Vec<Tag>, folders: &Vec<FolderEntry>, id: TagId) -> (r: Option<(Vec<Tag>, Vec<FolderEntry>)>)
    ensures
        !(exists|j: int| 0 <= j < tags@.len() && #[trigger] tags@[j].id == id) ==> r is None,
        (exists|j: int| 0 <= j < tags@.len() && #[trigger] tags@[j].id == id) ==> (r matches Some((t, f)) && t@
            == tags_without(tags@, id) && f@.len() == folders@.len() && forall|k: int| 0 <= k < folders@.len() ==> {
                &&& (#[trigger] f@[k]).tag_ids@ == tags_of_without(folders@[k].tag_ids@, id)
                &&& same_folder(FolderEntry { tag_ids: folders@[k].tag_ids, ..f@[k] }, folders@[k])
            }),
{
    let mut known = false;
    let mut kept: Vec<Tag> = Vec::new();
    for i in 0..tags.len()
        invariant
            kept@ == tags_without(tags@.take(i as int), id),
            known == (exists|j: int| 0 <= j < i && #[trigger] tags@[j].id == id),
    {
        assert(tags@.take(i + 1).drop_last() == tags@.take(i as int));
        assert(tags@.take(i + 1).last() == tags@[i as int]);
        if tags[i].id == id {
            known = true;
        } else {
            kept.push(copy_tag(&tags[i]));
        }
    }
    assert(tags@.take(tags@.len() as int) == tags@);
    if !known {
        return None;
    }
    let mut out: Vec<FolderEntry> = Vec::new();
    for k in 0..folders.len()
        invariant
            out@.len() == k,
            forall|i: int| 0 <= i < k ==> {
                &&& (#[trigger] out@[i]).tag_ids@ == tags_of_without(folders@[i].tag_ids@, id)
                &&& same_folder(FolderEntry { tag_ids: folders@[i].tag_ids, ..out@[i] }, folders@[i])
            },
    {
        let ids = toggle_draft_tag(&folders[k].tag_ids, id, false);
        out.push(with_tag_ids(&folders[k], ids));
    }
    Some((kept, out))
}

} // verus!
