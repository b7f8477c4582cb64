use vstd::prelude::*;

verus! {

/// The failures a status list operation can report. All of them are
/// validation failures: none is transient and none is worth retrying.
#[derive(Clone, Copy, Debug, PartialEq, Eq, Structural)]
pub enum StatusListError {
    /// Requested capacity exceeds the fixed ceiling; raised only at construction.
    SizeTooLarge,
    /// A bit index lies outside the list's addressable range.
    OutOfBounds,
    /// An attempt to clear an already-set bit of a revocation list.
    StatusNotReversible,
}

} // verus!
