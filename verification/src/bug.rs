//! The insect species a piece can be.

use vstd::prelude::*;

verus! {

/// A bug kind. Mosquito, Ladybug and Pillbug are expansion species,
/// gated by `GameType`.
#[derive(Clone, Copy, Debug, PartialEq, Eq, Structural, Hash)]
pub enum Bug {
    Queen,
    Spider,
    Beetle,
    Grasshopper,
    Ant,
    Mosquito,
    Ladybug,
    Pillbug,
}

impl Bug {
    /// The single letter used when a piece is rendered.
    pub fn letter(&self) -> (c: char)
        ensures
            c == self.spec_letter(),
    {
        match self {
            Bug::Queen => 'Q',
            Bug::Spider => 'S',
            Bug::Beetle => 'B',
            Bug::Grasshopper => 'G',
            Bug::Ant => 'A',
            Bug::Mosquito => 'M',
            Bug::Ladybug => 'L',
            Bug::Pillbug => 'P',
        }
    }

    pub open spec fn spec_letter(self) -> char {
        match self {
            Bug::Queen => 'Q',
            Bug::Spider => 'S',
            Bug::Beetle => 'B',
            Bug::Grasshopper => 'G',
            Bug::Ant => 'A',
            Bug::Mosquito => 'M',
            Bug::Ladybug => 'L',
            Bug::Pillbug => 'P',
        }
    }
}

} // verus!
