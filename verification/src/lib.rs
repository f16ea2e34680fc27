//! An enharmonic scale engine: the twelve-tone chromatic circle with its
//! alternate spellings, diatonic major/minor scale derivation with a correct
//! letter-name progression, degree lookup, and grading of answers as exact,
//! enharmonically equal, or wrong.

use vstd::prelude::*;

pub mod grade;
pub mod locate;
pub mod notation;
pub mod pitch;
pub mod scale;
pub mod trainer;

verus! {

/// Errors the engine reports as values; none of them terminates the process.
#[derive(Clone, Copy, PartialEq, Eq, Structural, Debug)]
pub enum EngineError {
    /// No pitch class matches the supplied root text.
    InvalidRoot,
    /// A question was requested from an empty note set.
    EmptyNoteSet,
}

} // verus!
