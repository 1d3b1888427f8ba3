//! Storage errors of the versioned document codec and the schema-version
//! gate every decode passes first.

use vstd::prelude::*;

use crate::text::{decimal, decimal_chars, push_char, push_str};

use super::import_export::{duplicate_paths, has_duplicate_paths, references_ok, references_resolve};
use super::schema::{StoredDocumentV1, CURRENT_SCHEMA_VERSION};

verus! {

/// What went wrong while decoding or encoding a stored document.
#[derive(Debug, Clone, Copy, PartialEq, Eq, Structural)]
pub enum StorageErrorKind {
    InvalidJson,
    UnsupportedFutureSchema,
    MigrationRequired,
    InvalidDocument,
    EncodeFailed,
}

/// An anonymous storage error: its kind and, for schema errors, the
/// offending schema version.
#[derive(Debug, Clone, PartialEq, Eq, Structural)]
pub struct StorageError {
    kind: StorageErrorKind,
    schema_version: Option<u32>,
}

impl StorageError {
    /// The error's kind.
    pub closed spec fn kind_of(self) -> StorageErrorKind {
        self.kind
    }

    /// The schema version the error names, if any.
    pub closed spec fn version_of(self) -> Option<u32> {
        self.schema_version
    }

    /// An error of `kind` that names no schema version.
    pub fn new(kind: StorageErrorKind) -> (r: StorageError)
        ensures
            r.kind_of() == kind,
            r.version_of() is None,
    {
        StorageError { kind, schema_version: None }
    }

    /// An error of `kind` naming `schema_version`.
    pub fn with_schema_version(kind: StorageErrorKind, schema_version: u32) -> (r: StorageError)
        ensures
            r.kind_of() == kind,
            r.version_of() == Some(schema_version),
    {
        StorageError { kind, schema_version: Some(schema_version) }
    }

    /// The error's kind.
    pub fn kind(&self) -> (r: StorageErrorKind)
        ensures
            r == self.kind_of(),
    {
        self.kind
    }

    /// The schema version the error names, if any.
    pub fn schema_version(&self) -> (r: Option<u32>)
        ensures
            r == self.version_of(),
    {
        self.schema_version
    }

    /// The fixed, anonymous description of the error: it never carries a
    /// path or stored content, only the schema version where one applies.
    pub fn message(&self) -> (r: String)
        ensures
            r@ == storage_message(self.kind_of(), self.version_of()),
    {
        let mut r = String::new();
        match (self.kind, self.schema_version) {
            (StorageErrorKind::InvalidJson, _) => push_str(&mut r, "stored data is not valid JSON"),
            (StorageErrorKind::UnsupportedFutureSchema, Some(version)) => {
                push_str(&mut r, "stored data uses unsupported future schema version ");
                push_decimal(&mut r, version);
            },
            (StorageErrorKind::MigrationRequired, Some(version)) => {
                push_str(&mut r, "stored data schema version ");
                push_decimal(&mut r, version);
                push_str(&mut r, " requires migration");
            },
            (StorageErrorKind::InvalidDocument, _) => push_str(
                &mut r,
                "stored data violates document validation rules",
            ),
            (StorageErrorKind::EncodeFailed, _) => push_str(&mut r, "stored data could not be encoded"),
            (_, _) => push_str(&mut r, "stored data could not be processed"),
        }
        r
    }
}

/// The description of a storage error of `kind` naming `version`.
pub open spec fn storage_message(kind: StorageErrorKind, version: Option<u32>) -> Seq<char> {
    match (kind, version) {
        (StorageErrorKind::InvalidJson, _) => "stored data is not valid JSON"@,
        (StorageErrorKind::UnsupportedFutureSchema, Some(v)) => "stored data uses unsupported future schema version "@
            + decimal(v as nat),
        (StorageErrorKind::MigrationRequired, Some(v)) => "stored data schema version "@ + decimal(v as nat)
            + " requires migration"@,
        (StorageErrorKind::InvalidDocument, _) => "stored data violates document validation rules"@,
        (StorageErrorKind::EncodeFailed, _) => "stored data could not be encoded"@,
        (_, _) => "stored data could not be processed"@,
    }
}

/// Appends the decimal digits of `n` to `s`.
pub(crate) fn push_decimal(s: &mut String, n: u32)
    ensures
        final(s)@ == old(s)@ + decimal(n as nat),
{
    let digits = decimal_chars(n as u64);
    let ghost start = s@;
    for i in 0..digits.len()
        invariant
            s@ == start + digits@.take(i as int),
    {
        push_char(s, digits[i]);
        assert(digits@.take(i + 1) == digits@.take(i as int).push(digits@[i as int]));
    }
    assert(digits@.take(digits@.len() as int) == digits@);
}

/// The schema-version gate of a decode: a newer version is refused as an
/// unsupported future schema, an older one as needing migration; only the
/// current version proceeds to the full decode.
pub fn schema_gate(schema_version: u32) -> (r: Result<(), StorageError>)
    ensures
        schema_version == CURRENT_SCHEMA_VERSION <==> r is Ok,
        schema_version > CURRENT_SCHEMA_VERSION ==> (r matches Err(e) && e.kind_of()
            == StorageErrorKind::UnsupportedFutureSchema && e.version_of() == Some(schema_version)),
        schema_version < CURRENT_SCHEMA_VERSION ==> (r matches Err(e) && e.kind_of()
            == StorageErrorKind::MigrationRequired && e.version_of() == Some(schema_version)),
{
    if schema_version > CURRENT_SCHEMA_VERSION {
        return Err(StorageError::with_schema_version(StorageErrorKind::UnsupportedFutureSchema, schema_version));
    }
    if schema_version < CURRENT_SCHEMA_VERSION {
        return Err(StorageError::with_schema_version(StorageErrorKind::MigrationRequired, schema_version));
    }
    Ok(())
}

/// Why a decoded or to-be-encoded document is refused, if it is: another
/// schema version needs migration; settings out of range, references to
/// unknown categories or tags, or two records naming the same folder make
/// it an invalid document.
pub open spec fn document_refusal(document: StoredDocumentV1) -> Option<StorageErrorKind> {
    let data = document.data;
    if document.schema_version != CURRENT_SCHEMA_VERSION {
        Some(StorageErrorKind::MigrationRequired)
    } else if !data.settings.within_ranges() || !references_resolve(data.folders@, data.categories@, data.tags@)
        || has_duplicate_paths(data.folders@) {
        Some(StorageErrorKind::InvalidDocument)
    } else {
        None
    }
}

/// Checks a whole document (see [`document_refusal`]); a migration error
/// names the document's schema version.
pub fn check_document(document: &StoredDocumentV1) -> (r: Result<(), StorageError>)
    ensures
        match r {
            Ok(()) => document_refusal(*document) is None,
            Err(e) => {
                &&& document_refusal(*document) == Some(e.kind_of())
                &&& e.kind_of() == StorageErrorKind::MigrationRequired ==> e.version_of() == Some(document.schema_version)
            },
        },
{
    if document.schema_version != CURRENT_SCHEMA_VERSION {
        return Err(StorageError::with_schema_version(StorageErrorKind::MigrationRequired, document.schema_version));
    }
    let data = &document.data;
    if data.settings.validate().is_err() {
        return Err(StorageError::new(StorageErrorKind::InvalidDocument));
    }
    if !references_ok(&data.folders, &data.categories, &data.tags) || duplicate_paths(&data.folders) {
        return Err(StorageError::new(StorageErrorKind::InvalidDocument));
    }
    Ok(())
}

} // verus!
