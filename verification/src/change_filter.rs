//! The change filter: decides from cheap metadata whether a file needs
//! re-hashing. A read-only decision with no side effect.

use vstd::prelude::*;
use crate::records::FileRecord;

verus! {

/// The decision for one visited file.
#[derive(Clone, Copy, Debug, PartialEq, Eq, Structural)]
pub enum ScanDecision {
    /// Leave the file alone: either it is empty, or its stored row already
    /// carries exactly this size and modification time.
    Skip,
    /// Hash the file and upsert its rows.
    Process,
}

/// When a file must be (re-)hashed: it is non-empty, and either no row is
/// stored for its path or the stored size or modification time differ.
pub open spec fn spec_needs_processing(
    prior: Option<FileRecord>,
    size: u64,
    modified_time: u64,
) -> bool {
    size != 0 && match prior {
        Option::None => true,
        Option::Some(r) => r.size != size || r.modified_time != modified_time,
    }
}

/// Decide SKIP or PROCESS for a path whose current metadata is (size,
/// modified_time), given the stored row for that exact path, if any.
/// Zero-size files are always skipped; bit-identical metadata is skipped;
/// any difference forces a re-hash.
pub fn change_decision(prior: Option<&FileRecord>, size: u64, modified_time: u64) -> (d:
    ScanDecision)
    ensures
        (d == ScanDecision::Process) == spec_needs_processing(
            match prior {
                Option::None => Option::None,
                Option::Some(r) => Option::Some(*r),
            },
            size,
            modified_time,
        ),
{
    if size == 0 {
        return ScanDecision::Skip;
    }
    match prior {
        Option::None => ScanDecision::Process,
        Option::Some(r) => {
            if r.size == size && r.modified_time == modified_time {
                ScanDecision::Skip
            } else {
                ScanDecision::Process
            }
        },
    }
}

} // verus!
