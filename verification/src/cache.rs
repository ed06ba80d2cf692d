//! Records of the cache that the library reasons about.

use vstd::prelude::*;

verus! {

/// An entry of `processed_files`, as listed for the rollback mode.
#[derive(Debug, Clone, PartialEq)]
pub struct ProcessedEntry {
    pub source_path: String,
    pub dest_path: String,
    pub status: String,
    pub last_seen: i64,
}

} // verus!
