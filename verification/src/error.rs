use vstd::prelude::*;

verus! {

/// Why a mutating entry point rejected its inputs and left all state
/// untouched.
#[derive(Clone, Copy, PartialEq, Eq, Structural, Debug)]
pub enum GrowthError {
    /// `ranges.len() + 1` does not equal `levels.len()` at registry creation.
    GroupCountMismatch,
    /// A group boundary is outside `[1, weights.len() - 1]` or the boundaries
    /// are not strictly ascending.
    InvalidRanges,
    /// A threshold ladder is not strictly ascending.
    LadderNotAscending,
    /// A threshold ladder holds more entries than a level (a `u8`) can count.
    LadderTooLong,
    /// More criteria than the aggregation arithmetic is sized for.
    TooManyCriteria,
    /// A caller-supplied vector does not match the length the registry fixes.
    LengthMismatch,
    /// The caller key does not equal the stored organization authority key.
    AuthorityMismatch,
    /// An accumulator or counter would exceed its carrier type.
    CounterOverflow,
}

} // verus!
