//! Versioned document model, storage errors, import/export planning types
//! and backup naming. File access itself stays outside the library.

use vstd::prelude::*;

pub mod backup;
pub mod codec;
pub mod import_export;
pub mod location;
pub mod records;
pub mod repository;
pub mod schema;

verus! {

/// A settings store that can be flushed to its backing medium.
pub trait SettingsRepository {
    type Error;

    fn flush(&mut self) -> Result<(), Self::Error>;
}

} // verus!
