//! The ways in which text handed to the library can be refused, and the one
//! way in which a search can fail.

use vstd::prelude::*;

verus! {

/// Why a request could not be served.
#[derive(Debug, Copy, Clone, Hash, PartialEq, Eq, Structural)]
pub enum Error {
    /// A text is not the notation of any move.
    UnknownMove,
    /// A sticker is given by a character that names no colour.
    UnknownColour,
    /// A sticker text does not have exactly one character for each of the
    /// fifty-four stickers.
    InvalidFaceletCube,
    /// The search ran out of states before it found a way to the solved cube.
    Unsolvable,
}

impl Error {
    /// The message that goes with each failure.
    pub open spec fn text(self) -> Seq<char> {
        match self {
            Error::UnknownMove => "Unknown move"@,
            Error::UnknownColour => "Unknown facelet colour"@,
            Error::InvalidFaceletCube => "Invalid facelet cube representation"@,
            Error::Unsolvable => "Cube is unsolveable"@,
        }
    }

    /// The message that goes with the failure.
    pub fn message(&self) -> (text: &'static str)
        ensures
            text@ == self.text(),
    {
        match self {
            Error::UnknownMove => "Unknown move",
            Error::UnknownColour => "Unknown facelet colour",
            Error::InvalidFaceletCube => "Invalid facelet cube representation",
            Error::Unsolvable => "Cube is unsolveable",
        }
    }
}

} // verus!
