//! FileGo's verified core: search over folder records, the presentation
//! decisions of the search and settings windows, and the rules of the stored
//! document, its backups and its sibling files.

pub mod domain;
pub mod order;
pub mod path_semantics;
pub mod presentation;
pub mod search;
pub mod storage;
pub mod text;
pub mod version;
