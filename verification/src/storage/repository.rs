//! Outcomes and errors of the persistence boundary. The atomic file
//! sequence itself (temp write, backup, rename) runs outside the library.

use vstd::prelude::*;

use crate::domain::{FolderEntry, FolderId};

use super::codec::StorageError;
use super::schema::StoredDocumentV1;

verus! {

/// Outcome of loading the stored document.
#[derive(Debug, Clone, PartialEq, Eq)]
pub enum LoadOutcome {
    /// The main file was missing or not decodable while an intact backup
    /// decoded; the document is the backup's. A corrupt main stays on disk.
    Recovered(StoredDocumentV1),
    /// The main file was read and decoded.
    Found(StoredDocumentV1),
}

/// Typed persistence error. Its description is fixed and anonymous: it never
/// carries paths, folder names, JSON content or other stored data.
#[derive(Debug, Clone, Copy, PartialEq, Eq, Structural)]
pub enum RepositoryError {
    Io,
    NotFound,
    CorruptData,
    ConcurrentModification,
    InvalidData,
}

impl RepositoryError {
    /// The fixed description of the error.
    pub fn message(&self) -> (r: &'static str)
        ensures
            r@ == match *self {
                RepositoryError::Io => "stored data could not be written or read"@,
                RepositoryError::NotFound => "no stored data exists"@,
                RepositoryError::CorruptData => "stored data is corrupt and no backup is recoverable"@,
                RepositoryError::ConcurrentModification => "stored data was changed concurrently and was not overwritten"@,
                RepositoryError::InvalidData => "stored data does not form a valid document"@,
            },
    {
        match self {
            RepositoryError::Io => "stored data could not be written or read",
            RepositoryError::NotFound => "no stored data exists",
            RepositoryError::CorruptData => "stored data is corrupt and no backup is recoverable",
            RepositoryError::ConcurrentModification => "stored data was changed concurrently and was not overwritten",
            RepositoryError::InvalidData => "stored data does not form a valid document",
        }
    }
}

impl From<StorageError> for RepositoryError {
    fn from(error: StorageError) -> (r: RepositoryError) {
        RepositoryError::InvalidData
    }
}

impl vstd::std_specs::convert::FromSpecImpl<StorageError> for RepositoryError {
    open spec fn obeys_from_spec() -> bool {
        true
    }

    open spec fn from_spec(v: StorageError) -> RepositoryError {
        RepositoryError::InvalidData
    }
}

/// What reading one stored file gave.
#[derive(Debug, Clone, PartialEq, Eq)]
pub enum FileRead {
    /// The file does not exist.
    Missing,
    /// The file exists but could not be read (any error but "not found").
    Unreadable,
    /// The file was read but does not decode as a valid document.
    Undecodable,
    /// The file was read and decoded.
    Decoded(StoredDocumentV1),
}

/// The outcome of a load, from what reading the main file and the backup
/// gave. A decodable main wins. A main that could not be read is `Io`: an
/// inaccessible file is never taken for a missing one, and the backup is not
/// tried. A missing or corrupt main falls back to the backup: a decodable
/// backup is recovered, an unreadable one is `Io`; with no usable backup a
/// corrupt main is `CorruptData` and a missing one `NotFound`. The backup
/// read is ignored when the main decides.
pub fn load_outcome(main: FileRead, backup: FileRead) -> (r: Result<LoadOutcome, RepositoryError>)
    ensures
        r == match main {
            FileRead::Decoded(d) => Ok(LoadOutcome::Found(d)),
            FileRead::Unreadable => Err(RepositoryError::Io),
            _ => match backup {
                FileRead::Decoded(b) => Ok(LoadOutcome::Recovered(b)),
                FileRead::Unreadable => Err(RepositoryError::Io),
                _ => if main is Undecodable {
                    Err(RepositoryError::CorruptData)
                } else {
                    Err(RepositoryError::NotFound)
                },
            },
        },
{
    match main {
        FileRead::Decoded(document) => Ok(LoadOutcome::Found(document)),
        FileRead::Unreadable => Err(RepositoryError::Io),
        FileRead::Missing => match backup {
            FileRead::Decoded(document) => Ok(LoadOutcome::Recovered(document)),
            FileRead::Unreadable => Err(RepositoryError::Io),
            _ => Err(RepositoryError::NotFound),
        },
        FileRead::Undecodable => match backup {
            FileRead::Decoded(document) => Ok(LoadOutcome::Recovered(document)),
            FileRead::Unreadable => Err(RepositoryError::Io),
            _ => Err(RepositoryError::CorruptData),
        },
    }
}

/// The revision guard of a conditional save, from what reading the main file
/// gave: a missing main lets the save proceed; a main of the expected
/// revision too; a main of another revision is `ConcurrentModification`; a
/// corrupt main is `CorruptData` (never matched against any revision) and an
/// unreadable one `Io`.
pub fn check_revision(main: &FileRead, expected_revision: u64) -> (r: Result<(), RepositoryError>)
    ensures
        r == match *main {
            FileRead::Missing => Ok(()),
            FileRead::Unreadable => Err(RepositoryError::Io),
            FileRead::Undecodable => Err(RepositoryError::CorruptData),
            FileRead::Decoded(d) => if d.data.revision == expected_revision {
                Ok(())
            } else {
                Err(RepositoryError::ConcurrentModification)
            },
        },
{
    match main {
        FileRead::Missing => Ok(()),
        FileRead::Unreadable => Err(RepositoryError::Io),
        FileRead::Undecodable => Err(RepositoryError::CorruptData),
        FileRead::Decoded(document) => if document.data.revision == expected_revision {
            Ok(())
        } else {
            Err(RepositoryError::ConcurrentModification)
        },
    }
}

/// The records other than `folder_id`, in order.
pub open spec fn without_folder(folders: Seq<FolderEntry>, folder_id: FolderId) -> Seq<FolderEntry>
    decreases folders.len(),
{
    if folders.len() == 0 {
        seq![]
    } else if folders.last().id == folder_id {
        without_folder(folders.drop_last(), folder_id)
    } else {
        without_folder(folders.drop_last(), folder_id).push(folders.last())
    }
}

proof fn lemma_without_folder_len(folders: Seq<FolderEntry>, folder_id: FolderId)
    ensures
        without_folder(folders, folder_id).len() <= folders.len(),
        without_folder(folders, folder_id).len() == folders.len() <==> forall|k: int| 0 <= k < folders.len() ==> #[trigger] folders[k].id != folder_id,
    decreases folders.len(),
{
    if folders.len() > 0 {
        lemma_without_folder_len(folders.drop_last(), folder_id);
        if without_folder(folders, folder_id).len() == folders.len() {
            assert forall|k: int| 0 <= k < folders.len() implies #[trigger] folders[k].id != folder_id by {
                if k < folders.len() - 1 {
                    assert(folders.drop_last()[k] == folders[k]);
                }
            }
        } else {
            if forall|k: int| 0 <= k < folders.len() ==> #[trigger] folders[k].id != folder_id {
                assert forall|k: int| 0 <= k < folders.drop_last().len() implies #[trigger] folders.drop_last()[k].id != folder_id by {
                    assert(folders[k].id != folder_id);
                }
            }
        }
    }
}

/// Removes the record of `folder_id` from the working copy's records: only
/// the record goes, never a real folder. Whether a record was removed.
pub fn remove_folder_record(folders: &mut Vec<FolderEntry>, folder_id: FolderId) -> (removed: bool)
    ensures
        final(folders)@ == without_folder(old(folders)@, folder_id),
        removed == exists|k: int| 0 <= k < old(folders)@.len() && #[trigger] old(folders)@[k].id == folder_id,
{
    let ghost start = folders@;
    let mut rest: Vec<FolderEntry> = Vec::new();
    std::mem::swap(&mut rest, folders);
    let mut kept: Vec<FolderEntry> = Vec::new();
    let mut removed = false;
    let ghost mut i: int = 0;
    assert(start.take(0) =~= Seq::<FolderEntry>::empty());
    assert(start.skip(0) == start);
    while rest.len() > 0
        invariant
            0 <= i <= start.len(),
            rest@ == start.skip(i),
            kept@ == without_folder(start.take(i), folder_id),
            removed == exists|k: int| 0 <= k < i && #[trigger] start[k].id == folder_id,
        decreases rest@.len(),
    {
        let f = rest.remove(0);
        proof {
            assert(start.take(i + 1).drop_last() == start.take(i));
            assert(start.take(i + 1).last() == start[i]);
            assert(rest@ == start.skip(i + 1));
        }
        if f.id == folder_id {
            removed = true;
        } else {
            kept.push(f);
        }
        proof {
            i = i + 1;
        }
    }
    assert(start.take(i) == start);
    *folders = kept;
    removed
}

} // verus!
