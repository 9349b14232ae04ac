use vstd::prelude::*;

verus! {

/// Failures raised by this layer itself, before any host call is dispatched.
///
/// Construction-time failures (an incomplete function table, an ill-formed
/// option fixture) and protocol misuse (a second transition on a finished
/// promise) are programmer or version-mismatch errors: they are reported
/// once, at the earliest point they can be detected.
#[derive(Clone, Copy, PartialEq, Eq, Structural, Debug)]
pub enum BridgeError {
    /// A required entry of a handle's function-pointer table is absent.
    MissingTableEntry,
    /// A text value is not null-byte-free UTF-8.
    InvalidText,
    /// Two entries of an option fixture share one name.
    DuplicateOptionName,
    /// A transition was attempted on a promise that already left `Pending`.
    PromiseAlreadyFinished,
}

} // verus!
