//! The warehouse map: what is known of each cell, and the rules by which new
//! observations are merged into it.

pub use crate::cell::{capacity_of, shape_of, Cell, CellType, CellView, Error, Walls};
pub use crate::coords::Coords2D;
use crate::coords::{
    get_coords_in_direction, lemma_coords_text_round_trip, parse_coords, positions_towards,
};
use crate::direction::Direction;
pub use crate::grid::CellGrid;
use crate::persist::{
    cell_from_record, cell_to_record, has_record, holds_map, lemma_map_round_trip,
    lemma_records_stay_refused, restore_map, stored, stored_views, StoredCell,
};
use vstd::prelude::*;
use vstd::set::fold::{is_fun_commutative, lemma_fold_empty, lemma_fold_insert};

verus! {

/// The map of the warehouse.
#[derive(Debug, PartialEq)]
pub struct Warehouse {
    cell_layout: CellGrid,
}

/// The direction in which `other` lies one step from `pos`, if it does.
pub open spec fn side_towards(pos: Coords2D, other: Coords2D) -> Option<Direction> {
    if pos.can_step(Direction::NORTH, 1) && pos.stepped(Direction::NORTH, 1) == other {
        Some(Direction::NORTH)
    } else if pos.can_step(Direction::EAST, 1) && pos.stepped(Direction::EAST, 1) == other {
        Some(Direction::EAST)
    } else if pos.can_step(Direction::SOUTH, 1) && pos.stepped(Direction::SOUTH, 1) == other {
        Some(Direction::SOUTH)
    } else if pos.can_step(Direction::WEST, 1) && pos.stepped(Direction::WEST, 1) == other {
        Some(Direction::WEST)
    } else {
        None
    }
}

/// The map after `cell` has been observed at `pos`: the cell stands at `pos`,
/// whatever stood there before; every known neighbour that a wall of the cell
/// faces has the wall on its own side too, where it can take it; all other
/// cells are as they were.
pub open spec fn upsert(m: Map<Coords2D, CellView>, pos: Coords2D, cell: CellView) -> Map<
    Coords2D,
    CellView,
> {
    Map::new(
        |p: Coords2D| p == pos || m.contains_key(p),
        |p: Coords2D|
            if p == pos {
                cell
            } else {
                match side_towards(pos, p) {
                    Some(dir) => if cell.walls.has(dir) {
                        m[p].with_wall(dir.opposite_spec())
                    } else {
                        m[p]
                    },
                    None => m[p],
                }
            },
    )
}

/// The map after `cell` has been offered for `pos`: it is taken only where
/// nothing is known of `pos` yet.
pub open spec fn insert_if_absent(m: Map<Coords2D, CellView>, pos: Coords2D, cell: CellView) -> Map<
    Coords2D,
    CellView,
> {
    if m.contains_key(pos) {
        m
    } else {
        m.insert(pos, cell)
    }
}

/// Whether `p` is one of the first `steps` positions on the way from `origin`
/// in direction `dir`.
pub open spec fn on_ray(origin: Coords2D, dir: Direction, steps: int, p: Coords2D) -> bool {
    match dir {
        Direction::NORTH => p.x == origin.x && 1 <= origin.y - p.y <= steps,
        Direction::EAST => p.y == origin.y && 1 <= p.x - origin.x <= steps,
        Direction::SOUTH => p.x == origin.x && 1 <= p.y - origin.y <= steps,
        Direction::WEST => p.y == origin.y && 1 <= origin.x - p.x <= steps,
    }
}

/// Whether `p` is the position `steps` steps from `origin` in direction `dir`.
pub open spec fn ends_ray(origin: Coords2D, dir: Direction, steps: int, p: Coords2D) -> bool {
    on_ray(origin, dir, steps, p) && !on_ray(origin, dir, steps - 1, p)
}

/// The cell that a far scan makes up for a position on its ray: without
/// walls, but for the last one, which has the wall that the scan saw.
pub open spec fn frontier_cell(dir: Direction, last: bool) -> CellView {
    let blank = CellView::blank(Coords2D { x: 0, y: 0 }, Seq::empty());
    if last {
        CellView { walls: Walls::none().with(dir), ..blank }
    } else {
        blank
    }
}

/// The map after the first `done` positions of a ray of `distance` steps from
/// `origin` in direction `dir` have been filled in: what was known stays, and
/// every other position on the ray gets a made-up cell.
pub open spec fn ray_cells(
    m: Map<Coords2D, CellView>,
    origin: Coords2D,
    dir: Direction,
    distance: int,
    done: int,
) -> Map<Coords2D, CellView> {
    Map::new(
        |p: Coords2D| m.contains_key(p) || on_ray(origin, dir, done, p),
        |p: Coords2D|
            if m.contains_key(p) {
                m[p]
            } else {
                frontier_cell(dir, ends_ray(origin, dir, distance, p))
            },
    )
}

/// The map after a far scan from `origin` has seen the nearest wall in
/// direction `dir` at `distance` steps.
pub open spec fn ray(m: Map<Coords2D, CellView>, origin: Coords2D, dir: Direction, distance: int) -> Map<
    Coords2D,
    CellView,
> {
    ray_cells(m, origin, dir, distance, distance)
}

/// The number of goods on all shelves together.
pub open spec fn total_occupied(m: Map<Coords2D, CellView>) -> nat {
    m.dom().fold(0nat, |sum: nat, p: Coords2D| sum + m[p].shelf.len())
}

/// The number of goods that all shelves together have room for.
pub open spec fn total_capacity(m: Map<Coords2D, CellView>) -> nat {
    m.dom().fold(0nat, |sum: nat, p: Coords2D| sum + m[p].capacity())
}

/// `n`, or the largest `usize` where `n` is larger.
pub open spec fn capped(n: nat) -> usize {
    if n <= usize::MAX {
        n as usize
    } else {
        usize::MAX
    }
}

/// Whether every wall between two known cells is known to both.
pub open spec fn walls_mirrored(m: Map<Coords2D, CellView>) -> bool {
    forall|p: Coords2D, dir: Direction|
        #![trigger m[p].walls.has(dir)]
        m.contains_key(p) && p.can_step(dir, 1) && m.contains_key(p.stepped(dir, 1)) ==> m[p].walls.has(
            dir,
        ) == m[p.stepped(dir, 1)].walls.has(dir.opposite_spec())
}

/// Whether the wall between `cell` at `pos` and its known neighbour in
/// direction `dir` can be made the same on both sides by adding to the
/// neighbour: the neighbour has no wall that the cell lacks, and has room for
/// the wall that it lacks.
pub open spec fn agrees_with_neighbour(
    m: Map<Coords2D, CellView>,
    pos: Coords2D,
    cell: CellView,
    dir: Direction,
) -> bool {
    let neighbour = m[pos.stepped(dir, 1)];
    let facing = dir.opposite_spec();
    &&& neighbour.walls.has(facing) ==> cell.walls.has(dir)
    &&& cell.walls.has(dir) && !neighbour.walls.has(facing) ==> neighbour.walls.count() < 3
}

impl View for Warehouse {
    type V = Map<Coords2D, CellView>;

    closed spec fn view(&self) -> Map<Coords2D, CellView> {
        self.cell_layout@
    }
}

impl Warehouse {
    /// A map on which nothing is known.
    pub fn new() -> (warehouse: Self)
        ensures
            warehouse@ == Map::<Coords2D, CellView>::empty(),
    {
        Warehouse { cell_layout: CellGrid::new() }
    }

    /// Notes a cell without walls at `pos`, unless a cell is known there.
    pub fn add_default_cell(&mut self, pos: Coords2D)
        ensures
            final(self)@ == insert_if_absent(
                old(self)@,
                pos,
                CellView::blank(pos, Seq::empty()),
            ),
    {
        if self.cell_layout.contains_key(&pos) {
            return ;
        }
        let cell = Cell::new(pos);
        self.cell_layout.insert(pos, cell);
    }

    /// Records a cell that the bot has observed at `pos`: see `upsert`.
    pub fn insert_or_update_cell(&mut self, pos: Coords2D, cell: Cell)
        ensures
            final(self)@ == upsert(old(self)@, pos, cell@),
    {
        let walls = cell.walls();
        self.cell_layout.insert(pos, cell);
        self.mirror(&pos, walls.north, Direction::NORTH);
        self.mirror(&pos, walls.east, Direction::EAST);
        self.mirror(&pos, walls.south, Direction::SOUTH);
        self.mirror(&pos, walls.west, Direction::WEST);
        assert(self@ =~= upsert(old(self)@, pos, cell@));
    }

    /// Tells the neighbour of `pos` in direction `dir` of a wall between the
    /// two.
    fn mirror(&mut self, pos: &Coords2D, wall: bool, dir: Direction)
        ensures
            final(self)@ == if wall && pos.can_step(dir, 1) && old(self)@.contains_key(
                pos.stepped(dir, 1),
            ) {
                old(self)@.insert(
                    pos.stepped(dir, 1),
                    old(self)@[pos.stepped(dir, 1)].with_wall(dir.opposite_spec()),
                )
            } else {
                old(self)@
            },
    {
        if wall {
            match pos.checked_neighbor(&dir) {
                Some(neighbour) => {
                    self.cell_layout.add_wall_at(&neighbour, dir.opposite());
                },
                None => {},
            }
        }
    }

    /// Records a cell that was made up from a far scan: it is taken only
    /// where nothing is known of `pos` yet, and no neighbour is told of its
    /// walls.
    pub fn add_far_scan_cell(&mut self, pos: Coords2D, cell: Cell)
        ensures
            final(self)@ == insert_if_absent(old(self)@, pos, cell@),
    {
        if !self.cell_layout.contains_key(&pos) {
            self.cell_layout.insert(pos, cell);
        }
    }

    /// Fills in the cells that a far scan implies: from `origin` the nearest
    /// wall in direction `dir` is `distance` steps away, so the positions up
    /// to there are open cells and the last of them has a wall on its far
    /// side. Cells that are known already stay as they are. A negative
    /// distance is refused with `InvalidArgument`.
    pub fn reconstruct_ray(&mut self, origin: &Coords2D, dir: Direction, distance: i32) -> (r: Result<
        (),
        crate::error::Error,
    >)
        requires
            distance >= 0 ==> origin.can_step(dir, distance as int),
        ensures
            match r {
                Ok(_) => distance >= 0 && final(self)@ == ray(
                    old(self)@,
                    *origin,
                    dir,
                    distance as int,
                ),
                Err(e) => e == crate::error::Error::InvalidArgument && distance < 0 && final(self)@
                    == old(self)@,
            },
    {
        let coords = match get_coords_in_direction(origin, &dir, Some(&distance)) {
            Ok(coords) => coords,
            Err(e) => {
                return Err(e);
            },
        };
        let mut i: usize = 0;
        assert(self@ =~= ray_cells(old(self)@, *origin, dir, distance as int, 0));
        while i < coords.len()
            invariant
                0 <= i <= coords.len(),
                distance >= 0,
                origin.can_step(dir, distance as int),
                coords@ == positions_towards(*origin, dir, distance as int),
                self@ == ray_cells(old(self)@, *origin, dir, distance as int, i as int),
            decreases coords.len() - i,
        {
            let mut cell = Cell::default();
            if i + 1 == coords.len() {
                let _shape = cell.add_wall(dir);
            }
            let pos = coords[i];
            assert(pos == origin.stepped(dir, i + 1));
            self.add_far_scan_cell(pos, cell);
            i += 1;
            assert(self@ =~= ray_cells(old(self)@, *origin, dir, distance as int, i as int));
        }
        Ok(())
    }

    /// The cell at `pos`, if one is known.
    pub fn get_cell(&self, pos: &Coords2D) -> (cell: Option<&Cell>)
        ensures
            match cell {
                Some(c) => self@.contains_key(*pos) && c@ == self@[*pos],
                None => !self@.contains_key(*pos),
            },
    {
        self.cell_layout.get(pos)
    }

    /// The goods on all shelves together and the room that all shelves
    /// together have, each given as `usize::MAX` where it is larger.
    pub fn storage_capacity(&self) -> (r: (usize, usize))
        ensures
            r.0 == capped(total_occupied(self@)),
            r.1 == capped(total_capacity(self@)),
    {
        let positions = self.cell_layout.keys();
        let ghost m = self@;
        let ghost occ = |sum: nat, p: Coords2D| sum + m[p].shelf.len();
        let ghost cap = |sum: nat, p: Coords2D| sum + m[p].capacity();
        assert(is_fun_commutative(occ));
        assert(is_fun_commutative(cap));
        let mut occupied: u128 = 0;
        let mut total: u128 = 0;
        let mut i: usize = 0;
        proof {
            lemma_fold_empty(0nat, occ);
            lemma_fold_empty(0nat, cap);
            assert(positions@.take(0).to_set() =~= Set::<Coords2D>::empty());
        }
        while i < positions.len()
            invariant
                0 <= i <= positions.len(),
                m == self@,
                positions@.no_duplicates(),
                positions@.to_set() == m.dom(),
                occ == |sum: nat, p: Coords2D| sum + m[p].shelf.len(),
                cap == |sum: nat, p: Coords2D| sum + m[p].capacity(),
                is_fun_commutative(occ),
                is_fun_commutative(cap),
                positions@.take(i as int).to_set().finite(),
                occupied == positions@.take(i as int).to_set().fold(0nat, occ),
                total == positions@.take(i as int).to_set().fold(0nat, cap),
                occupied <= i * usize::MAX,
                total <= i * 12,
            decreases positions.len() - i,
        {
            let pos = positions[i];
            proof {
                let before = positions@.take(i as int);
                let after = positions@.take(i + 1);
                assert(after =~= before.push(pos));
                before.lemma_push_to_set_commute(pos);
                assert(!before.to_set().contains(pos)) by {
                    if before.to_set().contains(pos) {
                        let j = choose|j: int| 0 <= j < before.len() && before[j] == pos;
                        assert(positions@[j] == positions@[i as int]);
                    }
                }
                lemma_fold_insert(before.to_set(), 0nat, occ, pos);
                lemma_fold_insert(before.to_set(), 0nat, cap, pos);
                assert(positions@.to_set().contains(pos));
                assert(i * usize::MAX + usize::MAX == (i + 1) * usize::MAX) by (nonlinear_arith);
                assert(i * usize::MAX <= usize::MAX * usize::MAX) by (nonlinear_arith)
                    requires
                        i <= usize::MAX,
                ;
            }
            match self.cell_layout.get(&pos) {
                Some(cell) => {
                    occupied = occupied + cell.occupied_storage() as u128;
                    total = total + cell.storage_capacity() as u128;
                },
                None => {
                    assert(false);
                },
            }
            i += 1;
        }
        assert(positions@.take(i as int) =~= positions@);
        let occupied_all = if occupied > usize::MAX as u128 {
            usize::MAX
        } else {
            occupied as usize
        };
        let total_all = if total > usize::MAX as u128 {
            usize::MAX
        } else {
            total as usize
        };
        (occupied_all, total_all)
    }

    /// The number of known cells.
    pub fn cells(&self) -> (n: usize)
        ensures
            self@.dom().finite(),
            n == self@.dom().len(),
    {
        self.cell_layout.len()
    }

    /// The grid of known cells.
    pub fn get_cellgrid(&self) -> (grid: &CellGrid)
        ensures
            grid@ == self@,
    {
        &self.cell_layout
    }

    /// Writes the map down: one record for each cell, under the text of its
    /// position, in no particular order. Reading the records with
    /// `deserialize` gives the same map back.
    pub fn serialize(&self) -> (records: Vec<StoredCell>)
        ensures
            holds_map(stored_views(records@), self@),
            records@.len() == self@.dom().len(),
            forall|pos: Coords2D| self@.contains_key(pos) ==> (#[trigger] self@[pos]).valid(),
            restore_map(stored_views(records@)) == Some(self@),
    {
        let positions = self.cell_layout.keys();
        let ghost m = self@;
        let mut records: Vec<StoredCell> = Vec::new();
        let mut i: usize = 0;
        while i < positions.len()
            invariant
                0 <= i <= positions.len(),
                m == self@,
                positions@.to_set() == m.dom(),
                records@.len() == i,
                forall|k: int|
                    0 <= k < i ==> (#[trigger] records@[k])@ == stored(m, positions@[k])
                        && m[positions@[k]].valid(),
            decreases positions.len() - i,
        {
            let pos = positions[i];
            assert(positions@.to_set().contains(pos));
            match self.cell_layout.get(&pos) {
                Some(cell) => {
                    let record = StoredCell { key: pos.to_string(), cell: cell_to_record(cell) };
                    records.push(record);
                },
                None => {
                    assert(false);
                },
            }
            i += 1;
        }
        proof {
            let views = stored_views(records@);
            assert forall|k: int| 0 <= k < views.len() implies match parse_coords(
                (#[trigger] views[k]).key,
            ) {
                Some(pos) => m.contains_key(pos) && views[k] == stored(m, pos),
                None => false,
            } by {
                lemma_coords_text_round_trip(positions@[k]);
                assert(positions@.to_set().contains(positions@[k]));
            }
            assert forall|pos: Coords2D| #[trigger] m.contains_key(pos) implies has_record(
                views,
                views.len() as int,
                pos,
            ) by {
                assert(positions@.to_set().contains(pos));
                let k = choose|k: int| 0 <= k < positions@.len() && positions@[k] == pos;
                assert(views[k].key == pos.text());
            }
            assert forall|pos: Coords2D| m.contains_key(pos) implies (#[trigger] m[pos]).valid() by {
                assert(positions@.to_set().contains(pos));
                let k = choose|k: int| 0 <= k < positions@.len() && positions@[k] == pos;
                assert(records@[k]@ == stored(m, positions@[k]));
            }
            lemma_map_round_trip(views, m);
        }
        records
    }

    /// Reads a map from its records: see `restore_map`. `None` where the text
    /// of a position cannot be read or a record describes no cell.
    pub fn deserialize(records: &Vec<StoredCell>) -> (warehouse: Option<Self>)
        ensures
            match warehouse {
                Some(w) => restore_map(stored_views(records@)) == Some(w@),
                None => restore_map(stored_views(records@)) is None,
            },
    {
        let mut grid = CellGrid::new();
        let ghost views = stored_views(records@);
        let mut i: usize = 0;
        assert(views.take(0) =~= Seq::empty());
        while i < records.len()
            invariant
                0 <= i <= records.len(),
                views == stored_views(records@),
                restore_map(views.take(i as int)) == Some(grid@),
            decreases records.len() - i,
        {
            assert(views.take(i + 1).drop_last() =~= views.take(i as int));
            assert(views.take(i + 1).last() == records@[i as int]@);
            let pos = Coords2D::from_string(records[i].key.as_str());
            let cell = cell_from_record(&records[i].cell);
            match (pos, cell) {
                (Some(pos), Some(cell)) => {
                    grid.insert(pos, cell);
                },
                _ => {
                    proof {
                        lemma_records_stay_refused(views, i + 1);
                    }
                    return None;
                },
            }
            i += 1;
        }
        assert(views.take(i as int) =~= views);
        Some(Warehouse { cell_layout: grid })
    }

    /// Forgets every cell.
    pub fn reset(&mut self)
        ensures
            final(self)@ == Map::<Coords2D, CellView>::empty(),
    {
        self.cell_layout.clear();
    }
}

impl Default for Warehouse {
    fn default() -> (warehouse: Self)
        ensures
            warehouse@ == Map::<Coords2D, CellView>::empty(),
    {
        Warehouse::new()
    }
}

/// After a cell has been observed, the wall between it and a known neighbour
/// is the same seen from either side, provided that the two could be made to
/// agree by adding to the neighbour.
pub proof fn lemma_upsert_mirrors_walls(
    m: Map<Coords2D, CellView>,
    pos: Coords2D,
    cell: CellView,
    dir: Direction,
)
    requires
        pos.can_step(dir, 1),
        m.contains_key(pos.stepped(dir, 1)),
        agrees_with_neighbour(m, pos, cell, dir),
    ensures
        ({
            let after = upsert(m, pos, cell);
            let neighbour = pos.stepped(dir, 1);
            &&& after.contains_key(pos)
            &&& after.contains_key(neighbour)
            &&& after[pos].walls.has(dir) == after[neighbour].walls.has(dir.opposite_spec())
            &&& neighbour.can_step(dir.opposite_spec(), 1)
            &&& neighbour.stepped(dir.opposite_spec(), 1) == pos
        }),
{
    let neighbour = pos.stepped(dir, 1);
    assert(side_towards(pos, neighbour) == Some(dir));
}

/// On a map on which every wall between two known cells is known to both,
/// that is still so after a cell has been observed, provided that the cell
/// and each of its known neighbours could be made to agree by adding to the
/// neighbour.
pub proof fn lemma_upsert_keeps_walls_mirrored(
    m: Map<Coords2D, CellView>,
    pos: Coords2D,
    cell: CellView,
)
    requires
        walls_mirrored(m),
        forall|dir: Direction|
            pos.can_step(dir, 1) && m.contains_key(pos.stepped(dir, 1))
                ==> #[trigger] agrees_with_neighbour(m, pos, cell, dir),
    ensures
        walls_mirrored(upsert(m, pos, cell)),
{
    let after = upsert(m, pos, cell);
    assert forall|p: Coords2D, dir: Direction|
        after.contains_key(p) && p.can_step(dir, 1) && after.contains_key(
            p.stepped(dir, 1),
        ) implies #[trigger] after[p].walls.has(dir) == after[p.stepped(dir, 1)].walls.has(
        dir.opposite_spec(),
    ) by {
        let q = p.stepped(dir, 1);
        let back = dir.opposite_spec();
        if p == pos {
            assert(agrees_with_neighbour(m, pos, cell, dir));
            lemma_upsert_mirrors_walls(m, pos, cell, dir);
        } else if q == pos {
            assert(pos.can_step(back, 1) && pos.stepped(back, 1) == p);
            assert(agrees_with_neighbour(m, pos, cell, back));
            lemma_upsert_mirrors_walls(m, pos, cell, back);
        } else {
            assert(m[p].walls.has(dir) == m[q].walls.has(back));
            assert(after[p].walls.has(dir) == m[p].walls.has(dir)) by {
                match side_towards(pos, p) {
                    Some(e) => {
                        assert(e.opposite_spec() != dir);
                    },
                    None => {},
                }
            }
            assert(after[q].walls.has(back) == m[q].walls.has(back)) by {
                match side_towards(pos, q) {
                    Some(e) => {
                        assert(e.opposite_spec() != back);
                    },
                    None => {},
                }
            }
        }
    }
}

/// A made-up cell never takes the place of a known one: whatever is offered
/// for whatever position, every known cell stays as it is.
pub proof fn lemma_frontier_never_overwrites(
    m: Map<Coords2D, CellView>,
    pos: Coords2D,
    made_up: CellView,
)
    ensures
        forall|p: Coords2D|
            m.contains_key(p) ==> insert_if_absent(m, pos, made_up).contains_key(p)
                && #[trigger] insert_if_absent(m, pos, made_up)[p] == m[p],
        m.contains_key(pos) ==> insert_if_absent(m, pos, made_up) == m,
{
}

/// A cell that the bot has observed is not changed by a far scan that comes
/// later, neither by a single made-up cell for its position nor by a whole
/// ray that passes it.
pub proof fn lemma_observed_cell_survives_far_scan(
    m: Map<Coords2D, CellView>,
    pos: Coords2D,
    observed: CellView,
    made_up: CellView,
    origin: Coords2D,
    dir: Direction,
    distance: int,
)
    ensures
        insert_if_absent(upsert(m, pos, observed), pos, made_up) == upsert(m, pos, observed),
        ray(upsert(m, pos, observed), origin, dir, distance)[pos] == observed,
        forall|p: Coords2D|
            m.contains_key(p) ==> ray(m, origin, dir, distance).contains_key(p) && #[trigger] ray(
                m,
                origin,
                dir,
                distance,
            )[p] == m[p],
{
}

} // verus!
