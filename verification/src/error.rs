//! The ways in which the solver refuses its input.

use vstd::prelude::*;

verus! {

/// What can go wrong while loading words, recording feedback or choosing a
/// guess.
#[derive(Clone, Copy, Debug, PartialEq, Eq, Structural)]
pub enum SolverError {
    /// A tile was reported correct for a letter while its position is
    /// already pinned to another letter.
    ConflictingFeedback,
    /// A guess was asked of an empty candidate list.
    EmptyCandidateSet,
    /// The entry at `index` of a word source is not five letters `a`..`z`.
    MalformedWordSource { index: usize },
    /// A word source holds no entry at all.
    EmptyWordSource,
}

} // verus!
