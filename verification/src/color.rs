//! Piece / player colors.

use vstd::prelude::*;

verus! {

/// One of the two sides of a Hive game.
#[derive(Clone, Copy, Debug, PartialEq, Eq, Structural, Hash)]
pub enum Color {
    White,
    Black,
}

impl Color {
    /// The other side.
    pub fn opposite(&self) -> (c: Color)
        ensures
            c == self.spec_opposite(),
    {
        match self {
            Color::White => Color::Black,
            Color::Black => Color::White,
        }
    }

    pub open spec fn spec_opposite(self) -> Color {
        match self {
            Color::White => Color::Black,
            Color::Black => Color::White,
        }
    }

    /// The textual form used in persisted control signals and statuses.
    pub fn name(&self) -> (s: &'static str)
        ensures
            s@ == self.spec_name(),
    {
        match self {
            Color::White => "White",
            Color::Black => "Black",
        }
    }

    pub open spec fn spec_name(self) -> Seq<char> {
        match self {
            Color::White => "White"@,
            Color::Black => "Black"@,
        }
    }
}

} // verus!
