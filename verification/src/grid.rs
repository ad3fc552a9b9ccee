//! The sparse grid: a map from positions to cells.

use crate::cell::{Cell, CellView};
use crate::coords::Coords2D;
use crate::direction::Direction;
use std::collections::HashMap;
use vstd::prelude::*;
use vstd::relations::injective_on;
use vstd::set_lib::lemma_map_size;
use vstd::std_specs::iter::IteratorSpec;

verus! {

/// The cells that are known, each under its position. Positions are unique;
/// the cells are in no particular order.
#[derive(Debug, PartialEq)]
pub struct CellGrid {
    cells: HashMap<u64, Cell>,
}

/// The number under which the cell at `pos` is kept: both coordinates, made
/// non-negative, side by side.
closed spec fn key_of(pos: Coords2D) -> u64 {
    ((pos.x + 2147483648) * 4294967296 + (pos.y + 2147483648)) as u64
}

/// The position that is kept under the number `k`.
closed spec fn position_of(k: u64) -> Coords2D {
    Coords2D { x: (k / 4294967296 - 2147483648) as i32, y: (k % 4294967296 - 2147483648) as i32 }
}

proof fn lemma_keys_and_positions()
    ensures
        forall|p: Coords2D| #[trigger] position_of(key_of(p)) == p,
        forall|k: u64| #[trigger] key_of(position_of(k)) == k,
{
    assert forall|p: Coords2D| #[trigger] position_of(key_of(p)) == p by {
        let k = key_of(p);
        assert(k == (p.x + 2147483648) * 4294967296 + (p.y + 2147483648));
        assert(k / 4294967296 == p.x + 2147483648);
        assert(k % 4294967296 == p.y + 2147483648);
    }
    assert forall|k: u64| #[trigger] key_of(position_of(k)) == k by {
        assert(0 <= k / 4294967296 < 4294967296);
    }
}

fn key(pos: &Coords2D) -> (k: u64)
    ensures
        k == key_of(*pos),
{
    let x = (pos.x as i64 + 2147483648) as u64;
    let y = (pos.y as i64 + 2147483648) as u64;
    x * 4294967296 + y
}

fn position(k: u64) -> (pos: Coords2D)
    ensures
        pos == position_of(k),
{
    let x = (k / 4294967296) as i64 - 2147483648;
    let y = (k % 4294967296) as i64 - 2147483648;
    Coords2D { x: x as i32, y: y as i32 }
}

impl View for CellGrid {
    type V = Map<Coords2D, CellView>;

    closed spec fn view(&self) -> Map<Coords2D, CellView> {
        Map::new(
            |p: Coords2D| self.cells@.contains_key(key_of(p)),
            |p: Coords2D| self.cells@[key_of(p)]@,
        )
    }
}

impl CellGrid {
    /// A grid without cells.
    pub fn new() -> (grid: Self)
        ensures
            grid@ == Map::<Coords2D, CellView>::empty(),
    {
        let grid = CellGrid { cells: HashMap::new() };
        assert(grid@ =~= Map::<Coords2D, CellView>::empty());
        grid
    }

    /// Only finitely many cells are known.
    pub proof fn lemma_finite(&self)
        ensures
            self@.dom().finite(),
    {
        self.lemma_count();
    }

    proof fn lemma_count(&self)
        ensures
            self@.dom().finite(),
            self@.dom().len() == self.cells@.dom().len(),
    {
        broadcast use vstd::std_specs::hash::group_hash_axioms;

        lemma_keys_and_positions();
        let keys = self.cells@.dom();
        let f = |k: u64| position_of(k);
        assert(injective_on(f, keys)) by {
            assert forall|a: u64, b: u64|
                keys.contains(a) && keys.contains(b) && #[trigger] f(a) == #[trigger] f(
                    b,
                ) implies a == b by {
                assert(key_of(position_of(a)) == a);
                assert(key_of(position_of(b)) == b);
            }
        }
        assert(keys.map(f) =~= self@.dom()) by {
            assert forall|p: Coords2D| self@.dom().contains(p) implies keys.map(f).contains(p) by {
                assert(keys.contains(key_of(p)) && f(key_of(p)) == p);
            }
        }
        lemma_map_size(keys, self@.dom(), f);
    }

    /// Puts `cell` at `pos` and gives back the cell that was there before.
    pub fn insert(&mut self, pos: Coords2D, cell: Cell) -> (previous: Option<Cell>)
        ensures
            final(self)@ == old(self)@.insert(pos, cell@),
            match previous {
                Some(c) => old(self)@.contains_key(pos) && c@ == old(self)@[pos],
                None => !old(self)@.contains_key(pos),
            },
    {
        broadcast use vstd::std_specs::hash::group_hash_axioms;

        proof {
            lemma_keys_and_positions();
        }
        let previous = self.cells.insert(key(&pos), cell);
        assert(self@ =~= old(self)@.insert(pos, cell@));
        previous
    }

    /// The cell at `pos`, if one is known.
    pub fn get(&self, pos: &Coords2D) -> (cell: Option<&Cell>)
        ensures
            match cell {
                Some(c) => self@.contains_key(*pos) && c@ == self@[*pos],
                None => !self@.contains_key(*pos),
            },
    {
        broadcast use vstd::std_specs::hash::group_hash_axioms;

        let k = key(pos);
        self.cells.get(&k)
    }

    /// Whether a cell is known at `pos`.
    pub fn contains_key(&self, pos: &Coords2D) -> (known: bool)
        ensures
            known == self@.contains_key(*pos),
    {
        broadcast use vstd::std_specs::hash::group_hash_axioms;

        let k = key(pos);
        self.cells.contains_key(&k)
    }

    /// Adds a wall on the given side of the cell at `pos`. Nothing changes
    /// where no cell is known there or the cell refuses the wall.
    pub fn add_wall_at(&mut self, pos: &Coords2D, side: Direction)
        ensures
            final(self)@ == if old(self)@.contains_key(*pos) {
                old(self)@.insert(*pos, old(self)@[*pos].with_wall(side))
            } else {
                old(self)@
            },
    {
        broadcast use vstd::std_specs::hash::group_hash_axioms;

        proof {
            lemma_keys_and_positions();
        }
        let k = key(pos);
        match self.cells.remove(&k) {
            Some(cell) => {
                let mut cell = cell;
                let _outcome = cell.add_wall(side);
                self.cells.insert(k, cell);
                assert(self@ =~= old(self)@.insert(*pos, old(self)@[*pos].with_wall(side)));
            },
            None => {
                assert(self@ =~= old(self)@);
            },
        }
    }

    /// The number of known cells.
    pub fn len(&self) -> (n: usize)
        ensures
            self@.dom().finite(),
            n == self@.dom().len(),
    {
        broadcast use vstd::std_specs::hash::group_hash_axioms;

        proof {
            self.lemma_count();
        }
        self.cells.len()
    }

    /// Whether no cell is known.
    pub fn is_empty(&self) -> (empty: bool)
        ensures
            empty == (self@ == Map::<Coords2D, CellView>::empty()),
    {
        broadcast use vstd::std_specs::hash::group_hash_axioms;

        proof {
            lemma_keys_and_positions();
            if self.cells@.is_empty() {
                assert(self@ =~= Map::<Coords2D, CellView>::empty());
            } else {
                let k = choose|k: u64| self.cells@.dom().contains(k);
                assert(self@.contains_key(position_of(k)));
            }
        }
        self.cells.is_empty()
    }

    /// Forgets every cell.
    pub fn clear(&mut self)
        ensures
            final(self)@ == Map::<Coords2D, CellView>::empty(),
    {
        self.cells.clear();
        assert(self@ =~= Map::<Coords2D, CellView>::empty());
    }

    /// The positions of the known cells, each once, in no particular order.
    pub fn keys(&self) -> (positions: Vec<Coords2D>)
        ensures
            positions@.no_duplicates(),
            positions@.to_set() == self@.dom(),
            positions@.len() == self@.dom().len(),
    {
        broadcast use vstd::std_specs::hash::group_hash_axioms;

        proof {
            lemma_keys_and_positions();
            self.lemma_count();
        }
        let mut positions: Vec<Coords2D> = Vec::new();
        let ghost all = self.cells.keys().remaining();
        assert(all.unref().to_set() == self.cells@.dom());
        for k in it: self.cells.keys()
            invariant
                it.seq() == all,
                positions@.len() == it.index(),
                forall|j: int|
                    0 <= j < positions@.len() ==> #[trigger] positions@[j] == position_of(*all[j]),
        {
            positions.push(position(*k));
        }
        proof {
            let keys = all.unref();
            assert forall|i: int, j: int|
                0 <= i < positions@.len() && 0 <= j < positions@.len() && i != j implies positions@[i]
                != positions@[j] by {
                assert(keys[i] != keys[j]);
                assert(key_of(position_of(keys[i])) == keys[i]);
                assert(key_of(position_of(keys[j])) == keys[j]);
            }
            assert(positions@.to_set() =~= self@.dom()) by {
                assert forall|p: Coords2D| self@.dom().contains(p) implies positions@.to_set().contains(
                    p,
                ) by {
                    assert(keys.to_set().contains(key_of(p)));
                    let j = choose|j: int| 0 <= j < keys.len() && keys[j] == key_of(p);
                    assert(positions@[j] == p);
                }
                assert forall|p: Coords2D| positions@.to_set().contains(p) implies self@.dom().contains(
                    p,
                ) by {
                    let j = choose|j: int| 0 <= j < positions@.len() && positions@[j] == p;
                    assert(keys.to_set().contains(keys[j]));
                }
            }
        }
        positions
    }
}

} // verus!
