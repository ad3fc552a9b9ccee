//! What a bot can be asked to do, and what a far scan answers.

pub mod rest;

use crate::cell::Cell;
use crate::coords::Coords2D;
use crate::direction::Direction;
use crate::error::Error;
use crate::text::{int_text, push_int};
use vstd::prelude::*;

verus! {

/// The commands that a bot takes. The map is built from what `scan_near` and
/// `scan_far` answer; nothing is assumed of an implementation.
pub trait Commands {
    /// Where the bot is.
    fn locate(&self) -> Coords2D;

    fn go_north(&mut self) -> Result<(), Error>;

    fn go_south(&mut self) -> Result<(), Error>;

    fn go_west(&mut self) -> Result<(), Error>;

    fn go_east(&mut self) -> Result<(), Error>;

    /// The cell in which the bot stands.
    fn scan_near(&self) -> Result<Cell, Error>;

    /// The distance to the nearest wall in each direction.
    fn scan_far(&self) -> Result<FarScanResult, Error>;

    fn reset(&mut self) -> Result<(), Error>;
}

/// The answer to a far scan: for each direction that was scanned, the number
/// of steps to the nearest wall.
#[derive(Debug, Clone, Copy, PartialEq, Eq)]
pub struct FarScanResult {
    north: Option<i32>,
    east: Option<i32>,
    south: Option<i32>,
    west: Option<i32>,
}

impl View for FarScanResult {
    type V = Map<Direction, i32>;

    closed spec fn view(&self) -> Map<Direction, i32> {
        Map::new(
            |dir: Direction| self.slot(dir) is Some,
            |dir: Direction| self.slot(dir)->Some_0,
        )
    }
}

/// The text of a far scan: the distances in the order north, east, south,
/// west, each after the name of its direction, in braces.
pub open spec fn far_scan_text(scan: Map<Direction, i32>) -> Seq<char> {
    "{"@ + distance_text(scan, Direction::NORTH, "NORTH: "@, false) + distance_text(
        scan,
        Direction::EAST,
        "EAST: "@,
        scan.contains_key(Direction::NORTH),
    ) + distance_text(
        scan,
        Direction::SOUTH,
        "SOUTH: "@,
        scan.contains_key(Direction::NORTH) || scan.contains_key(Direction::EAST),
    ) + distance_text(
        scan,
        Direction::WEST,
        "WEST: "@,
        scan.contains_key(Direction::NORTH) || scan.contains_key(Direction::EAST)
            || scan.contains_key(Direction::SOUTH),
    ) + "}"@
}

/// The text of one distance of a far scan, after a comma where another one
/// stands before it; nothing where the direction was not scanned.
pub open spec fn distance_text(
    scan: Map<Direction, i32>,
    dir: Direction,
    label: Seq<char>,
    follows: bool,
) -> Seq<char> {
    if scan.contains_key(dir) {
        (if follows {
            ", "@
        } else {
            Seq::<char>::empty()
        }) + label + int_text(scan[dir] as int)
    } else {
        Seq::<char>::empty()
    }
}

impl FarScanResult {
    spec fn slot(self, dir: Direction) -> Option<i32> {
        match dir {
            Direction::NORTH => self.north,
            Direction::EAST => self.east,
            Direction::SOUTH => self.south,
            Direction::WEST => self.west,
        }
    }

    /// A far scan that has not looked in any direction.
    pub fn new() -> (scan: Self)
        ensures
            scan@ == Map::<Direction, i32>::empty(),
    {
        let scan = FarScanResult { north: None, east: None, south: None, west: None };
        assert(scan@ =~= Map::<Direction, i32>::empty());
        scan
    }

    /// Notes the distance for a direction and gives back the one that was
    /// noted before.
    pub fn insert(&mut self, dir: Direction, distance: i32) -> (previous: Option<i32>)
        ensures
            final(self)@ == old(self)@.insert(dir, distance),
            previous == if old(self)@.contains_key(dir) {
                Some(old(self)@[dir])
            } else {
                None::<i32>
            },
    {
        let previous = match dir {
            Direction::NORTH => {
                let previous = self.north;
                self.north = Some(distance);
                previous
            },
            Direction::EAST => {
                let previous = self.east;
                self.east = Some(distance);
                previous
            },
            Direction::SOUTH => {
                let previous = self.south;
                self.south = Some(distance);
                previous
            },
            Direction::WEST => {
                let previous = self.west;
                self.west = Some(distance);
                previous
            },
        };
        assert(self@ =~= old(self)@.insert(dir, distance));
        previous
    }

    /// The distance that was noted for a direction.
    pub fn get(&self, dir: &Direction) -> (distance: Option<&i32>)
        ensures
            match distance {
                Some(n) => self@.contains_key(*dir) && self@[*dir] == *n,
                None => !self@.contains_key(*dir),
            },
    {
        match dir {
            Direction::NORTH => self.north.as_ref(),
            Direction::EAST => self.east.as_ref(),
            Direction::SOUTH => self.south.as_ref(),
            Direction::WEST => self.west.as_ref(),
        }
    }

    /// The scan as text: see `far_scan_text`.
    pub fn to_string(&self) -> (text: String)
        ensures
            text@ == far_scan_text(self@),
    {
        let mut out = String::new();
        out.append("{");
        let mut follows = false;
        if let Some(n) = self.north {
            out.append("NORTH: ");
            push_int(&mut out, n as i64);
            follows = true;
        }
        if let Some(n) = self.east {
            if follows {
                out.append(", ");
            }
            out.append("EAST: ");
            push_int(&mut out, n as i64);
            follows = true;
        }
        if let Some(n) = self.south {
            if follows {
                out.append(", ");
            }
            out.append("SOUTH: ");
            push_int(&mut out, n as i64);
            follows = true;
        }
        if let Some(n) = self.west {
            if follows {
                out.append(", ");
            }
            out.append("WEST: ");
            push_int(&mut out, n as i64);
        }
        out.append("}");
        assert(out@ =~= far_scan_text(self@));
        out
    }
}

} // verus!
