//! A placed tile: bug, color, and the stacking order that tells apart
//! otherwise-identical pieces.

use vstd::prelude::*;

use crate::bug::Bug;
use crate::color::Color;

verus! {

/// An immutable piece value. `order` is assigned at spawn time,
/// monotonically per bug kind and color.
#[derive(Clone, Copy, Debug, PartialEq, Eq, Structural, Hash)]
pub struct Piece {
    pub bug: Bug,
    pub color: Color,
    pub order: i8,
}

impl Piece {
    pub fn new(bug: Bug, color: Color, order: i8) -> (p: Piece)
        ensures
            p.bug == bug,
            p.color == color,
            p.order == order,
    {
        Piece { bug, color, order }
    }
}

} // verus!
