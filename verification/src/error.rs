//! Error taxonomy of the scoring path.

use vstd::prelude::*;

verus! {

/// Errors that the scoring path may declare.
///
/// `NotEnoughEpochs` is a declared minimum-tenure guard: scoring a validator
/// before five epochs have elapsed since a reference point. The scoring path
/// does not currently raise it; a window with no usable records is a valid
/// "not enough data yet" outcome and skips the shortlist update instead.
#[derive(Clone, Copy, Debug, PartialEq, Eq, Structural)]
pub enum ErrorCode {
    /// A generic failure of an operation.
    CustomError,
    /// The validator cannot be scored yet: fewer than five epochs have passed.
    NotEnoughEpochs,
}

} // verus!
