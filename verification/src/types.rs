use vstd::prelude::*;

verus! {

/// The mutation policy a status list is created with, fixed for its lifetime.
#[derive(Clone, Copy, Debug, PartialEq, Eq, Structural)]
pub enum ListPurpose {
    /// One-way: once a bit is set it can never be cleared again.
    Revocation,
    /// Reversible: a bit may be flipped freely in both directions.
    Suspension,
}

} // verus!
