//! User-facing snapshot backups (`backup-<stamp>.json`): their names, the
//! order in which a free stamp is searched for, which backups may be removed,
//! the newest-first listing and the anonymous errors. Writing, listing and
//! reading the files is done outside the library.

use vstd::prelude::*;

use crate::order::{lemma_lex_lt_order, lex_less, lex_lt};
use crate::text::{chars_of, decimal, lemma_decimal_injective, push_str};

use super::codec::{push_decimal, StorageError, StorageErrorKind};
use std::path::{Path, PathBuf};

use super::location::{join_name, joined_path, MAIN_FILE_NAME};

verus! {

/// Prefix of user-facing backup files.
pub const USER_BACKUP_PREFIX: &'static str = "backup-";

/// File extension of a user-facing backup.
pub const USER_BACKUP_EXT: &'static str = "json";

/// The stamp prefix reserved for automatic overwrite-import snapshots.
pub const BEFORE_IMPORT_STAMP_PREFIX: &'static str = "before-import-";

/// A user-facing backup error (anonymous; never a path).
#[derive(Debug, Clone, Copy, PartialEq, Eq, Structural)]
pub enum BackupError {
    /// The document could not be encoded.
    EncodeFailed,
    /// The backup file could not be written.
    WriteFailed,
    /// The backup directory could not be listed.
    ListFailed,
    /// A just-created import snapshot could not be removed after its import
    /// failed.
    RemoveFailed,
    /// The named backup does not exist or is not decodable.
    Invalid,
}

impl BackupError {
    /// The fixed, anonymous description of the error.
    pub fn message(&self) -> (r: &'static str)
        ensures
            r@ == match *self {
                BackupError::EncodeFailed => "the current data could not be encoded as a backup"@,
                BackupError::WriteFailed => "the backup file could not be written"@,
                BackupError::ListFailed => "the backup list could not be read"@,
                BackupError::RemoveFailed => "the temporary import backup could not be removed"@,
                BackupError::Invalid => "the named backup is missing or not a valid document"@,
            },
    {
        match self {
            BackupError::EncodeFailed => "the current data could not be encoded as a backup",
            BackupError::WriteFailed => "the backup file could not be written",
            BackupError::ListFailed => "the backup list could not be read",
            BackupError::RemoveFailed => "the temporary import backup could not be removed",
            BackupError::Invalid => "the named backup is missing or not a valid document",
        }
    }
}

/// The flat file name of a backup: `backup-<stamp>.json`.
pub fn backup_file_name(stamp: &str) -> (r: String)
    ensures
        r@ == USER_BACKUP_PREFIX@ + stamp@ + "."@ + USER_BACKUP_EXT@,
{
    let mut r = String::new();
    push_str(&mut r, USER_BACKUP_PREFIX);
    push_str(&mut r, stamp);
    push_str(&mut r, ".");
    push_str(&mut r, USER_BACKUP_EXT);
    r
}

/// Whether `p` is a prefix of `s`.
pub open spec fn starts_with(s: Seq<char>, p: Seq<char>) -> bool {
    p.len() <= s.len() && s.take(p.len() as int) == p
}

/// Whether `p` is a suffix of `s`.
pub open spec fn ends_with(s: Seq<char>, p: Seq<char>) -> bool {
    p.len() <= s.len() && s.skip(s.len() - p.len()) == p
}

pub(crate) fn has_prefix(s: &Vec<char>, p: &Vec<char>) -> (r: bool)
    ensures
        r == starts_with(s@, p@),
{
    if p.len() > s.len() {
        return false;
    }
    for i in 0..p.len()
        invariant
            p@.len() <= s@.len(),
            forall|k: int| 0 <= k < i ==> s@[k] == p@[k],
    {
        if s[i] != p[i] {
            assert(s@.take(p@.len() as int)[i as int] != p@[i as int]);
            return false;
        }
    }
    assert(s@.take(p@.len() as int) =~= p@);
    true
}

fn has_suffix(s: &Vec<char>, p: &Vec<char>) -> (r: bool)
    ensures
        r == ends_with(s@, p@),
{
    if p.len() > s.len() {
        return false;
    }
    let offset = s.len() - p.len();
    for i in 0..p.len()
        invariant
            p@.len() <= s@.len(),
            offset == s@.len() - p@.len(),
            offset + p@.len() == s.len(),
            forall|k: int| 0 <= k < i ==> s@[offset + k] == p@[k],
    {
        if s[offset + i] != p[i] {
            assert(s@.skip(offset as int)[i as int] != p@[i as int]);
            return false;
        }
    }
    assert(s@.skip(offset as int) =~= p@);
    true
}

/// The full path of the backup of `stamp` in `base_dir`.
pub fn backup_file_path(base_dir: &Path, stamp: &str) -> (r: PathBuf)
    ensures
        r == joined_path(base_dir, USER_BACKUP_PREFIX@ + stamp@ + "."@ + USER_BACKUP_EXT@),
{
    let name = backup_file_name(stamp);
    join_name(base_dir, name.as_str())
}

/// A user-facing backup's name: `backup-` prefix and `.json` suffix.
pub open spec fn is_backup_name(file_name: Seq<char>) -> bool {
    starts_with(file_name, USER_BACKUP_PREFIX@) && ends_with(file_name, "."@ + USER_BACKUP_EXT@)
}

/// Whether `file_name` names a user-facing backup: `backup-` prefix and
/// `.json` suffix.
pub fn is_backup_file(file_name: &str) -> (r: bool)
    ensures
        r == is_backup_name(file_name@),
{
    let name = chars_of(file_name);
    let prefix = chars_of(USER_BACKUP_PREFIX);
    let mut ext = String::new();
    push_str(&mut ext, ".");
    push_str(&mut ext, USER_BACKUP_EXT);
    let suffix = chars_of(ext.as_str());
    has_prefix(&name, &prefix) && has_suffix(&name, &suffix)
}

/// The storage error kind of a decode error (kept anonymous for the UI).
pub fn decode_error_kind(error: StorageError) -> (r: StorageErrorKind)
    ensures
        r == error.kind_of(),
{
    error.kind()
}

/// The stamp tried at `attempt` (counting from 0) while making a backup
/// stamp unique in its directory: `<prefix><timestamp>` first, then
/// `<prefix><timestamp>-2`, `-3`, and so on.
pub open spec fn stamp_candidate_of(prefix: Seq<char>, timestamp: Seq<char>, attempt: nat) -> Seq<char> {
    if attempt == 0 {
        prefix + timestamp
    } else {
        prefix + timestamp + "-"@ + decimal(attempt + 1)
    }
}

/// The stamp to try at `attempt` when two backups would share a stamp (two
/// snapshots in the same second): each further attempt appends the next
/// numeric suffix, so a new file is created instead of overwriting the first.
/// The caller tries attempts in turn until the stamp is free.
pub fn stamp_candidate(prefix: &str, timestamp: &str, attempt: u32) -> (r: String)
    requires
        attempt < u32::MAX,
    ensures
        r@ == stamp_candidate_of(prefix@, timestamp@, attempt as nat),
{
    let mut r = String::new();
    push_str(&mut r, prefix);
    push_str(&mut r, timestamp);
    if attempt > 0 {
        push_str(&mut r, "-");
        push_decimal(&mut r, attempt + 1);
    }
    r
}

/// Law: successive attempts never repeat a stamp, so the search for a free
/// stamp never tries one twice.
pub proof fn lemma_stamp_candidates_distinct(prefix: Seq<char>, timestamp: Seq<char>, a: nat, b: nat)
    ensures
        a != b ==> stamp_candidate_of(prefix, timestamp, a) != stamp_candidate_of(prefix, timestamp, b),
{
    let base = prefix + timestamp;
    let ca = stamp_candidate_of(prefix, timestamp, a);
    let cb = stamp_candidate_of(prefix, timestamp, b);
    if a != b && ca == cb {
        if a == 0 || b == 0 {
            assert(ca.len() != cb.len());
        } else {
            let head = base + "-"@;
            assert(ca == head + decimal(a + 1));
            assert(cb == head + decimal(b + 1));
            assert(decimal(a + 1) =~= ca.skip(head.len() as int));
            assert(decimal(b + 1) =~= cb.skip(head.len() as int));
            lemma_decimal_injective(a + 1, b + 1);
        }
    }
}

/// The name prefix of an automatic before-import snapshot.
pub open spec fn import_snapshot_prefix() -> Seq<char> {
    USER_BACKUP_PREFIX@ + BEFORE_IMPORT_STAMP_PREFIX@
}

/// Whether `file_name` has the shape of an automatic before-import snapshot
/// (`backup-before-import-*.json`): the only backups that may be removed,
/// and only after their own import failed. That the name is a bare file name
/// (one path component) is checked by [`may_remove_import_snapshot`].
pub fn is_import_snapshot_name(file_name: &str) -> (r: bool)
    ensures
        r == (starts_with(file_name@, import_snapshot_prefix()) && is_backup_name(file_name@)),
{
    let mut prefix = String::new();
    push_str(&mut prefix, USER_BACKUP_PREFIX);
    push_str(&mut prefix, BEFORE_IMPORT_STAMP_PREFIX);
    has_prefix(&chars_of(file_name), &chars_of(prefix.as_str())) && is_backup_file(file_name)
}

/// Trusted wrapper around `Path::components`: the number of components std
/// splits `file_name` into. Which characters separate components depends on
/// the platform, so nothing is stated of the count.
#[verifier::external_body]
fn path_component_count(file_name: &str) -> (r: usize) {
    Path::new(file_name).components().count()
}

/// Whether `file_name`, split into `components` path components, may be
/// removed as a failed import's snapshot: it has a snapshot's name and is a
/// bare file name (one component).
pub fn snapshot_removable(file_name: &str, components: usize) -> (r: bool)
    ensures
        r == (starts_with(file_name@, import_snapshot_prefix()) && is_backup_name(file_name@) && components == 1),
{
    is_import_snapshot_name(file_name) && components == 1
}

/// Whether `file_name`, split into `components` path components, may be
/// read as a backup: it has a backup's name and is a bare file name.
pub fn backup_readable(file_name: &str, components: usize) -> (r: bool)
    ensures
        r == (is_backup_name(file_name@) && components == 1),
{
    is_backup_file(file_name) && components == 1
}

/// Whether `file_name` may be removed as a failed import's snapshot (see
/// [`snapshot_removable`], with the component count std gives). Only a
/// snapshot's name can qualify.
pub fn may_remove_import_snapshot(file_name: &str) -> (r: bool)
    ensures
        r ==> starts_with(file_name@, import_snapshot_prefix()) && is_backup_name(file_name@),
{
    let components = path_component_count(file_name);
    snapshot_removable(file_name, components)
}

/// Whether `file_name` may be read as a backup (see [`backup_readable`],
/// with the component count std gives). Only a backup's name can qualify.
pub fn may_read_backup(file_name: &str) -> (r: bool)
    ensures
        r ==> is_backup_name(file_name@),
{
    let components = path_component_count(file_name);
    backup_readable(file_name, components)
}

/// Law: a backup file may be removed as a failed import's snapshot exactly
/// when its stamp carries the before-import prefix; a manual backup and the
/// main document never qualify.
pub proof fn lemma_only_import_snapshots_removable(stamp: Seq<char>)
    ensures
        (starts_with(USER_BACKUP_PREFIX@ + stamp + "."@ + USER_BACKUP_EXT@, import_snapshot_prefix())
            && is_backup_name(USER_BACKUP_PREFIX@ + stamp + "."@ + USER_BACKUP_EXT@))
            <==> starts_with(stamp, BEFORE_IMPORT_STAMP_PREFIX@),
        !starts_with(MAIN_FILE_NAME@, import_snapshot_prefix()),
{
    reveal_strlit("backup-");
    reveal_strlit("before-import-");
    reveal_strlit("json");
    reveal_strlit(".");
    reveal_strlit("data.json");
    let bp = USER_BACKUP_PREFIX@;
    let ip = BEFORE_IMPORT_STAMP_PREFIX@;
    let ext = "."@ + USER_BACKUP_EXT@;
    let name = bp + stamp + "."@ + USER_BACKUP_EXT@;
    assert(name =~= bp + stamp + ext);
    let pre = import_snapshot_prefix();
    assert(pre.len() == 21);
    assert(name.take(bp.len() as int) =~= bp);
    assert(name.skip(name.len() - ext.len()) =~= ext);
    assert(is_backup_name(name));
    if starts_with(stamp, ip) {
        assert(name.take(21) =~= pre) by {
            assert forall|k: int| 0 <= k < 21 implies name.take(21)[k] == pre[k] by {
                if k >= 7 {
                    assert(stamp.take(14)[k - 7] == ip[k - 7]);
                }
            }
        }
    }
    if starts_with(name, pre) {
        if stamp.len() >= 14 {
            assert(stamp.take(14) =~= ip) by {
                assert forall|k: int| 0 <= k < 14 implies stamp.take(14)[k] == ip[k] by {
                    assert(name.take(21)[k + 7] == pre[k + 7]);
                    assert(name[k + 7] == stamp[k]);
                }
            }
        } else {
            let k = stamp.len() as int;
            assert(name[7 + k] == '.');
            assert(name.take(21)[7 + k] == pre[7 + k]);
        }
    }
    assert(MAIN_FILE_NAME@[0] != pre[0]);
}

/// Views of a list of file names.
pub open spec fn names_of(names: Seq<String>) -> Seq<Seq<char>> {
    names.map_values(|name: String| name@)
}

/// The backup names among `names`, in their order.
pub open spec fn backup_names(names: Seq<String>) -> Seq<Seq<char>>
    decreases names.len(),
{
    if names.len() == 0 {
        seq![]
    } else if is_backup_name(names.last()@) {
        backup_names(names.drop_last()).push(names.last()@)
    } else {
        backup_names(names.drop_last())
    }
}

/// `names` is in descending order (newest stamp first).
pub open spec fn newest_first_order(names: Seq<Seq<char>>) -> bool {
    forall|a: int, b: int| 0 <= a < b < names.len() ==> !lex_lt(#[trigger] names[a], #[trigger] names[b])
}

/// The backups among the directory entries `file_names`, newest first: by
/// name in descending order, as the names embed sortable stamps.
pub fn newest_first(file_names: Vec<String>) -> (r: Vec<String>)
    ensures
        names_of(r@).to_multiset() == backup_names(file_names@).to_multiset(),
        newest_first_order(names_of(r@)),
{
    broadcast use vstd::multiset::group_multiset_axioms;
    let ghost all = file_names@;
    let mut rest = file_names;
    let mut r: Vec<String> = Vec::new();
    proof {
        assert(names_of(r@) =~= Seq::<Seq<char>>::empty());
        vstd::seq_lib::to_multiset_len(names_of(r@));
        vstd::multiset::lemma_multiset_empty_len(names_of(r@).to_multiset());
        assert(rest@ =~= all.take(rest@.len() as int));
    }
    while rest.len() > 0
        invariant
            all.len() >= rest@.len(),
            rest@ == all.take(rest@.len() as int),
            names_of(r@).to_multiset().add(backup_names(rest@).to_multiset()) == backup_names(all).to_multiset(),
            newest_first_order(names_of(r@)),
        decreases rest@.len(),
    {
        let ghost before_rest = rest@;
        let name = rest.pop().unwrap();
        proof {
            assert(rest@ == before_rest.drop_last());
            assert(before_rest.last() == name);
            assert(rest@ =~= all.take(rest@.len() as int));
            vstd::seq_lib::to_multiset_build(backup_names(rest@), name@);
        }
        if is_backup_file(name.as_str()) {
            let chars = chars_of(name.as_str());
            let mut p: usize = 0;
            let mut found = false;
            while p < r.len() && !found
                invariant
                    0 <= p <= r@.len(),
                    chars@ == name@,
                    found ==> p < r@.len() && lex_lt(r@[p as int]@, name@),
                    forall|k: int| 0 <= k < p ==> !lex_lt(#[trigger] r@[k]@, name@),
                decreases r@.len() - p + if found { 0int } else { 1int },
            {
                if lex_less(&chars_of(r[p].as_str()), &chars) {
                    found = true;
                } else {
                    p = p + 1;
                }
            }
            let ghost old_names = names_of(r@);
            proof {
                let s = old_names.insert(p as int, name@);
                assert forall|k: int| 0 <= k < old_names.len() implies #[trigger] old_names[k] == r@[k]@ by {}
                assert forall|a: int, b: int| 0 <= a < b < s.len() implies !lex_lt(#[trigger] s[a], #[trigger] s[b]) by {
                    if b < p {
                        assert(s[a] == old_names[a] && s[b] == old_names[b]);
                    } else if b == p {
                        assert(s[a] == old_names[a]);
                        assert(s[b] == name@);
                    } else if a < p {
                        assert(s[a] == old_names[a] && s[b] == old_names[b - 1]);
                    } else if a == p {
                        assert(s[a] == name@);
                        assert(s[b] == old_names[b - 1]);
                        assert(lex_lt(old_names[p as int], name@));
                        lemma_lex_lt_order(old_names[b - 1], old_names[p as int], name@);
                        lemma_lex_lt_order(name@, old_names[b - 1], old_names[p as int]);
                    } else {
                        assert(s[a] == old_names[a - 1] && s[b] == old_names[b - 1]);
                    }
                }
                vstd::seq_lib::to_multiset_insert(old_names, p as int, name@);
            }
            r.insert(p, name);
            proof {
                assert(names_of(r@) =~= old_names.insert(p as int, name@));
            }
        }
    }
    proof {
        assert(rest@ =~= Seq::<String>::empty());
        vstd::seq_lib::to_multiset_len(backup_names(rest@));
        vstd::multiset::lemma_multiset_empty_len(backup_names(rest@).to_multiset());
    }
    r
}


/// Law: a newest-first listing is determined by the names it holds,
/// whatever order the directory handed them out in: two newest-first
/// arrangements of the same names are equal.
pub proof fn lemma_newest_first_unique(s1: Seq<Seq<char>>, s2: Seq<Seq<char>>)
    requires
        s1.to_multiset() == s2.to_multiset(),
        newest_first_order(s1),
        newest_first_order(s2),
    ensures
        s1 == s2,
    decreases s1.len(),
{
    vstd::seq_lib::to_multiset_len(s1);
    vstd::seq_lib::to_multiset_len(s2);
    if s1.len() > 0 {
        let h1 = s1[0];
        let h2 = s2[0];
        vstd::seq_lib::to_multiset_contains(s1, h2);
        vstd::seq_lib::to_multiset_contains(s2, h1);
        vstd::seq_lib::to_multiset_contains(s1, h1);
        vstd::seq_lib::to_multiset_contains(s2, h2);
        assert(s2.contains(h1));
        assert(s1.contains(h2));
        let i = choose|i: int| 0 <= i < s2.len() && s2[i] == h1;
        let j = choose|j: int| 0 <= j < s1.len() && s1[j] == h2;
        if i > 0 {
            assert(!lex_lt(h2, h1));
        }
        if j > 0 {
            assert(!lex_lt(h1, h2));
        }
        lemma_lex_lt_order(h1, h2, h1);
        assert(h1 == h2);
        let t1 = s1.drop_first();
        let t2 = s2.drop_first();
        vstd::seq_lib::to_multiset_remove(s1, 0);
        vstd::seq_lib::to_multiset_remove(s2, 0);
        assert(s1.remove(0) =~= t1);
        assert(s2.remove(0) =~= t2);
        assert(newest_first_order(t1)) by {
            assert forall|a: int, b: int| 0 <= a < b < t1.len() implies !lex_lt(#[trigger] t1[a], #[trigger] t1[b]) by {
                assert(t1[a] == s1[a + 1] && t1[b] == s1[b + 1]);
            }
        }
        assert(newest_first_order(t2)) by {
            assert forall|a: int, b: int| 0 <= a < b < t2.len() implies !lex_lt(#[trigger] t2[a], #[trigger] t2[b]) by {
                assert(t2[a] == s2[a + 1] && t2[b] == s2[b + 1]);
            }
        }
        lemma_newest_first_unique(t1, t2);
        assert(s1 =~= s2) by {
            assert forall|k: int| 0 <= k < s1.len() implies s1[k] == s2[k] by {
                if k > 0 {
                    assert(s1[k] == t1[k - 1] && s2[k] == t2[k - 1]);
                }
            }
        }
    } else {
        assert(s2.len() == 0);
        assert(s1 =~= s2);
    }
}

} // verus!
