//! The two persisted row types: content-address rows and per-path index rows.

use vstd::prelude::*;

verus! {

/// One content-address row: a distinct (size, digest) pair ever observed,
/// with the stable identifier assigned on first observation. Never mutated.
pub struct HashRecord {
    pub id: u64,
    pub size: u64,
    pub digest: String,
}

/// One indexed file path, with the metadata and content identifier seen at
/// its last successful scan. Unique on `path`; updated in place on rescan.
pub struct FileRecord {
    pub id: u64,
    pub path: String,
    pub size: u64,
    pub modified_time: u64,
    pub hash_id: u64,
}

impl FileRecord {
    /// A field-for-field copy.
    pub fn duplicate(&self) -> (r: FileRecord)
        ensures
            r == *self,
    {
        FileRecord {
            id: self.id,
            path: self.path.clone(),
            size: self.size,
            modified_time: self.modified_time,
            hash_id: self.hash_id,
        }
    }
}

} // verus!
