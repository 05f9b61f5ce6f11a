//! Per-player piece supply, decremented as pieces are placed.

use vstd::prelude::*;

use crate::bug::Bug;
use crate::color::Color;

verus! {

/// Remaining pieces per bug kind.
struct BugCounts {
    queen: i8,
    spider: i8,
    beetle: i8,
    grasshopper: i8,
    ant: i8,
    mosquito: i8,
    ladybug: i8,
    pillbug: i8,
}

/// One side's remaining supply of pieces.
pub struct Player {
    color: Color,
    bugs: BugCounts,
}

impl Player {
    pub closed spec fn spec_color(self) -> Color {
        self.color
    }

    /// How many pieces of `bug` this player still holds.
    pub closed spec fn count(self, bug: Bug) -> int {
        match bug {
            Bug::Queen => self.bugs.queen as int,
            Bug::Spider => self.bugs.spider as int,
            Bug::Beetle => self.bugs.beetle as int,
            Bug::Grasshopper => self.bugs.grasshopper as int,
            Bug::Ant => self.bugs.ant as int,
            Bug::Mosquito => self.bugs.mosquito as int,
            Bug::Ladybug => self.bugs.ladybug as int,
            Bug::Pillbug => self.bugs.pillbug as int,
        }
    }

    /// A player with the full default supply, expansion bugs included.
    pub fn new(color: Color) -> (p: Player)
        ensures
            p.spec_color() == color,
            p.count(Bug::Queen) == 1,
            p.count(Bug::Spider) == 2,
            p.count(Bug::Beetle) == 2,
            p.count(Bug::Grasshopper) == 3,
            p.count(Bug::Ant) == 3,
            p.count(Bug::Mosquito) == 1,
            p.count(Bug::Ladybug) == 1,
            p.count(Bug::Pillbug) == 1,
    {
        Player {
            color,
            bugs: BugCounts {
                queen: 1,
                spider: 2,
                beetle: 2,
                grasshopper: 3,
                ant: 3,
                mosquito: 1,
                ladybug: 1,
                pillbug: 1,
            },
        }
    }

    /// Consumes one piece of `bug` if any remain; an exhausted supply is
    /// left untouched (the count never goes negative).
    pub fn use_bug(&mut self, bug: &Bug)
        ensures
            final(self).spec_color() == old(self).spec_color(),
            final(self).count(*bug) == if old(self).count(*bug) > 0 {
                old(self).count(*bug) - 1
            } else {
                old(self).count(*bug)
            },
            forall|b: Bug| b != *bug ==> final(self).count(b) == old(self).count(b),
    {
        match bug {
            Bug::Queen => if self.bugs.queen > 0 {
                self.bugs.queen = self.bugs.queen - 1;
            },
            Bug::Spider => if self.bugs.spider > 0 {
                self.bugs.spider = self.bugs.spider - 1;
            },
            Bug::Beetle => if self.bugs.beetle > 0 {
                self.bugs.beetle = self.bugs.beetle - 1;
            },
            Bug::Grasshopper => if self.bugs.grasshopper > 0 {
                self.bugs.grasshopper = self.bugs.grasshopper - 1;
            },
            Bug::Ant => if self.bugs.ant > 0 {
                self.bugs.ant = self.bugs.ant - 1;
            },
            Bug::Mosquito => if self.bugs.mosquito > 0 {
                self.bugs.mosquito = self.bugs.mosquito - 1;
            },
            Bug::Ladybug => if self.bugs.ladybug > 0 {
                self.bugs.ladybug = self.bugs.ladybug - 1;
            },
            Bug::Pillbug => if self.bugs.pillbug > 0 {
                self.bugs.pillbug = self.bugs.pillbug - 1;
            },
        }
    }

    /// The color this supply belongs to.
    pub fn color(&self) -> (c: Color)
        ensures
            c == self.spec_color(),
    {
        self.color
    }

    /// How many pieces of `bug` remain; callers should consult this
    /// before offering `bug` as a placement option.
    pub fn remaining(&self, bug: &Bug) -> (n: i8)
        ensures
            n as int == self.count(*bug),
    {
        match bug {
            Bug::Queen => self.bugs.queen,
            Bug::Spider => self.bugs.spider,
            Bug::Beetle => self.bugs.beetle,
            Bug::Grasshopper => self.bugs.grasshopper,
            Bug::Ant => self.bugs.ant,
            Bug::Mosquito => self.bugs.mosquito,
            Bug::Ladybug => self.bugs.ladybug,
            Bug::Pillbug => self.bugs.pillbug,
        }
    }
}

} // verus!
