//! A verified bit-indexed status registry for revocable and suspendable
//! credential slots. A `StatusList` packs one status bit per slot into a
//! fixed-capacity byte array (least-significant bit first within each byte);
//! reads and toggles are bounds-checked, and the list's purpose decides
//! whether a set bit may ever be cleared again: `Revocation` is one-way,
//! `Suspension` is reversible. Every operation's effect, down to the exact
//! bit, is stated in its contract and proved.

pub mod bits;
pub mod errors;
pub mod state;
pub mod types;
