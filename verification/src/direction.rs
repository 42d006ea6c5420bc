//! The six compass bearings of the hexagonal search lattice.

use vstd::prelude::*;

verus! {

/// One of the six bearings, 60 degrees apart, along which the lattice grows.
#[derive(Clone, Copy, Debug, PartialEq, Eq, Hash, Structural)]
pub enum Direction {
    North,
    NorthEast,
    SouthEast,
    South,
    SouthWest,
    NorthWest,
}

impl Direction {
    /// Position of the bearing in the clockwise cycle that starts at north.
    pub open spec fn index(self) -> int {
        match self {
            Direction::North => 0,
            Direction::NorthEast => 1,
            Direction::SouthEast => 2,
            Direction::South => 3,
            Direction::SouthWest => 4,
            Direction::NorthWest => 5,
        }
    }

    /// The bearing at position `i` of the cycle; positions wrap around.
    pub open spec fn at(i: int) -> Direction {
        let k = i % 6;
        if k == 0 {
            Direction::North
        } else if k == 1 {
            Direction::NorthEast
        } else if k == 2 {
            Direction::SouthEast
        } else if k == 3 {
            Direction::South
        } else if k == 4 {
            Direction::SouthWest
        } else {
            Direction::NorthWest
        }
    }

    /// The whole cycle, clockwise from north.
    pub open spec fn cycle() -> Seq<Direction> {
        Seq::new(6, |i: int| Direction::at(i))
    }

    /// The bearing in whole degrees, clockwise from north.
    pub fn degrees(&self) -> (degrees: u32)
        ensures
            degrees == 60 * self.index(),
    {
        match self {
            Direction::North => 0,
            Direction::NorthEast => 60,
            Direction::SouthEast => 120,
            Direction::South => 180,
            Direction::SouthWest => 240,
            Direction::NorthWest => 300,
        }
    }

    /// The bearing two positions further in the cycle, that is 120 degrees
    /// clockwise: the side of a hexagonal ring that starts at the corner
    /// reached along `self`.
    pub fn next(&self) -> (turned: Direction)
        ensures
            turned == Direction::at(self.index() + 2),
    {
        match self {
            Direction::North => Direction::SouthEast,
            Direction::NorthEast => Direction::South,
            Direction::SouthEast => Direction::SouthWest,
            Direction::South => Direction::NorthWest,
            Direction::SouthWest => Direction::North,
            Direction::NorthWest => Direction::NorthEast,
        }
    }

    /// All six bearings, clockwise from north.
    pub fn iter() -> (all: Vec<Direction>)
        ensures
            all@ == Direction::cycle(),
    {
        let mut all: Vec<Direction> = Vec::new();
        all.push(Direction::North);
        all.push(Direction::NorthEast);
        all.push(Direction::SouthEast);
        all.push(Direction::South);
        all.push(Direction::SouthWest);
        all.push(Direction::NorthWest);
        assert(all@ =~= Direction::cycle());
        all
    }
}

/// Every bearing sits at its own position of the cycle.
pub proof fn lemma_at_index(d: Direction)
    ensures
        0 <= d.index() < 6,
        Direction::at(d.index()) == d,
{
}

/// Turning three times by 120 degrees leads back to the bearing one started
/// with, and the bearing in degrees turns by 120 modulo 360.
pub proof fn lemma_next_turns(d: Direction)
    ensures
        Direction::at(d.index() + 6) == d,
        60 * Direction::at(d.index() + 2).index() == (60 * d.index() + 120) % 360,
{
}

} // verus!
