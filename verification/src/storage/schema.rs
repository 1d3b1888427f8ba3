//! The stored document, schema version 1.

use vstd::prelude::*;

use crate::domain::AppData;

verus! {

/// The schema version this library reads and writes.
pub const CURRENT_SCHEMA_VERSION: u32 = 1;

/// A stored document: its schema version and the data block.
#[derive(Debug, Clone, PartialEq, Eq)]
pub struct StoredDocumentV1 {
    pub schema_version: u32,
    pub data: AppData,
}

impl StoredDocumentV1 {
    /// A current-schema document holding `data`.
    pub fn new(data: AppData) -> (r: StoredDocumentV1)
        ensures
            r.schema_version == CURRENT_SCHEMA_VERSION,
            r.data == data,
    {
        StoredDocumentV1 { schema_version: CURRENT_SCHEMA_VERSION, data }
    }
}

} // verus!
