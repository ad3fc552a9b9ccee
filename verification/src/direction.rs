//! The four cardinal directions and their names.

use crate::text::same_text;
use vstd::prelude::*;

verus! {

pub const NORTH_LIT: &'static str = "north";

pub const EAST_LIT: &'static str = "east";

pub const SOUTH_LIT: &'static str = "south";

pub const WEST_LIT: &'static str = "west";

/// One of the four cardinal directions of the grid.
#[derive(Clone, Copy, Debug, PartialEq, Eq, Hash, Structural)]
pub enum Direction {
    NORTH,
    EAST,
    SOUTH,
    WEST,
}

impl Direction {
    /// The direction that points the other way.
    pub open spec fn opposite_spec(self) -> Direction {
        match self {
            Direction::NORTH => Direction::SOUTH,
            Direction::EAST => Direction::WEST,
            Direction::SOUTH => Direction::NORTH,
            Direction::WEST => Direction::EAST,
        }
    }

    /// The lower-case name of the direction.
    pub open spec fn name(self) -> Seq<char> {
        match self {
            Direction::NORTH => NORTH_LIT@,
            Direction::EAST => EAST_LIT@,
            Direction::SOUTH => SOUTH_LIT@,
            Direction::WEST => WEST_LIT@,
        }
    }

    /// The direction that carries the given name, if any.
    pub open spec fn named(name: Seq<char>) -> Option<Direction> {
        if name == NORTH_LIT@ {
            Some(Direction::NORTH)
        } else if name == EAST_LIT@ {
            Some(Direction::EAST)
        } else if name == SOUTH_LIT@ {
            Some(Direction::SOUTH)
        } else if name == WEST_LIT@ {
            Some(Direction::WEST)
        } else {
            None
        }
    }

    pub fn opposite(&self) -> (r: Direction)
        ensures
            r == self.opposite_spec(),
    {
        match self {
            Direction::NORTH => Direction::SOUTH,
            Direction::EAST => Direction::WEST,
            Direction::SOUTH => Direction::NORTH,
            Direction::WEST => Direction::EAST,
        }
    }
}

/// The name under which a direction is written.
pub fn direction_to_literal(direction: &Direction) -> (literal: &'static str)
    ensures
        literal@ == direction.name(),
{
    match direction {
        Direction::NORTH => NORTH_LIT,
        Direction::EAST => EAST_LIT,
        Direction::SOUTH => SOUTH_LIT,
        Direction::WEST => WEST_LIT,
    }
}

/// Reads a direction back from its name; any other text gives `None`.
pub fn literal_to_direction(literal: &str) -> (direction: Option<Direction>)
    ensures
        direction == Direction::named(literal@),
{
    if same_text(literal, NORTH_LIT) {
        Some(Direction::NORTH)
    } else if same_text(literal, EAST_LIT) {
        Some(Direction::EAST)
    } else if same_text(literal, SOUTH_LIT) {
        Some(Direction::SOUTH)
    } else if same_text(literal, WEST_LIT) {
        Some(Direction::WEST)
    } else {
        None
    }
}

/// Every direction is found again under its own name.
pub proof fn lemma_direction_name_round_trip(direction: Direction)
    ensures
        Direction::named(direction.name()) == Some(direction),
{
    reveal_strlit("north");
    reveal_strlit("east");
    reveal_strlit("south");
    reveal_strlit("west");
    assert(NORTH_LIT@.len() == 5);
    assert(EAST_LIT@.len() == 4);
    assert(SOUTH_LIT@.len() == 5);
    assert(WEST_LIT@.len() == 4);
    assert(NORTH_LIT@[0] == 'n');
    assert(SOUTH_LIT@[0] == 's');
    assert(EAST_LIT@[0] == 'e');
    assert(WEST_LIT@[0] == 'w');
}

} // verus!
