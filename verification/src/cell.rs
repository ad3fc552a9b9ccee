//! A single cell of the warehouse: its walls, the shape that follows from
//! them, its shelf and whether the bot has been there.

use crate::coords::Coords2D;
use crate::direction::Direction;
use crate::text::{decimal, push_decimal};
use vstd::prelude::*;

verus! {

/// What a cell answers when a wall or a good cannot be added.
#[derive(Debug, PartialEq, Eq, Clone, Copy, Structural)]
pub enum Error {
    /// The cell has three walls already; a fourth would close it.
    CellInvalid,
    /// There is a wall on that side already.
    WallExists,
    /// The shelf holds another kind of good.
    GoodsIncompatible,
    /// The shelf is full.
    StorageExceeded,
}

/// The shape of a cell, as given by its walls.
#[derive(PartialEq, Eq, Debug, Clone, Copy, Structural)]
pub enum CellType {
    XCross,
    TCross,
    Corner,
    Hallway,
    DeadEnd,
}

impl CellType {
    /// The name under which the shape is written.
    pub open spec fn name_spec(self) -> Seq<char> {
        match self {
            CellType::XCross => "XCross"@,
            CellType::TCross => "TCross"@,
            CellType::Corner => "Corner"@,
            CellType::Hallway => "Hallway"@,
            CellType::DeadEnd => "DeadEnd"@,
        }
    }

    /// The name under which the shape is written.
    pub fn name(&self) -> (name: &'static str)
        ensures
            name@ == self.name_spec(),
    {
        match self {
            CellType::XCross => "XCross",
            CellType::TCross => "TCross",
            CellType::Corner => "Corner",
            CellType::Hallway => "Hallway",
            CellType::DeadEnd => "DeadEnd",
        }
    }
}

/// The sides of a cell on which there is a wall.
#[derive(PartialEq, Eq, Debug, Clone, Copy, Structural)]
pub struct Walls {
    pub east: bool,
    pub north: bool,
    pub south: bool,
    pub west: bool,
}

impl Walls {
    /// No wall on any side.
    pub open spec fn none() -> Walls {
        Walls { east: false, north: false, south: false, west: false }
    }

    /// Whether there is a wall on the given side.
    pub open spec fn has(self, side: Direction) -> bool {
        match side {
            Direction::NORTH => self.north,
            Direction::EAST => self.east,
            Direction::SOUTH => self.south,
            Direction::WEST => self.west,
        }
    }

    /// The same walls and one on the given side.
    pub open spec fn with(self, side: Direction) -> Walls {
        match side {
            Direction::NORTH => Walls { north: true, ..self },
            Direction::EAST => Walls { east: true, ..self },
            Direction::SOUTH => Walls { south: true, ..self },
            Direction::WEST => Walls { west: true, ..self },
        }
    }

    /// The number of sides with a wall.
    pub open spec fn count(self) -> nat {
        ((if self.north {
            1nat
        } else {
            0nat
        }) + (if self.east {
            1nat
        } else {
            0nat
        }) + (if self.south {
            1nat
        } else {
            0nat
        }) + (if self.west {
            1nat
        } else {
            0nat
        })) as nat
    }

    /// The walled sides in the order north, east, south, west.
    pub open spec fn list(self) -> Seq<Direction> {
        (if self.north {
            seq![Direction::NORTH]
        } else {
            Seq::<Direction>::empty()
        }) + (if self.east {
            seq![Direction::EAST]
        } else {
            Seq::<Direction>::empty()
        }) + (if self.south {
            seq![Direction::SOUTH]
        } else {
            Seq::<Direction>::empty()
        }) + (if self.west {
            seq![Direction::WEST]
        } else {
            Seq::<Direction>::empty()
        })
    }
}

/// The shape that a set of walls gives a cell: no wall an `XCross`, one a
/// `TCross`, two a `Hallway` where they face each other and a `Corner` where
/// they meet, three a `DeadEnd`.
pub open spec fn shape_of(walls: Walls) -> CellType {
    if walls.count() == 0 {
        CellType::XCross
    } else if walls.count() == 1 {
        CellType::TCross
    } else if walls.count() == 2 {
        if (walls.north && walls.south) || (walls.east && walls.west) {
            CellType::Hallway
        } else {
            CellType::Corner
        }
    } else {
        CellType::DeadEnd
    }
}

/// The number of goods that the shelf of a cell of the given shape holds.
pub open spec fn capacity_of(shape: CellType) -> nat {
    match shape {
        CellType::XCross => 4,
        CellType::TCross => 6,
        CellType::Hallway => 8,
        CellType::Corner => 9,
        CellType::DeadEnd => 12,
    }
}

/// What a cell holds, as plain mathematical values.
pub struct CellView {
    pub pos: Coords2D,
    pub id: Seq<char>,
    pub walls: Walls,
    pub shelf: Seq<Seq<char>>,
    pub visited: bool,
}

impl CellView {
    /// A cell without walls, goods or visit.
    pub open spec fn blank(pos: Coords2D, id: Seq<char>) -> CellView {
        CellView { pos, id, walls: Walls::none(), shelf: Seq::empty(), visited: false }
    }

    pub open spec fn shape(self) -> CellType {
        shape_of(self.walls)
    }

    pub open spec fn capacity(self) -> nat {
        capacity_of(shape_of(self.walls))
    }

    /// The good on the shelf, or `"-"` for an empty shelf.
    pub open spec fn good_type(self) -> Seq<char> {
        if self.shelf.len() > 0 {
            self.shelf[0]
        } else {
            "-"@
        }
    }

    /// What every cell keeps to: at most three walls, one kind of good on the
    /// shelf, and no more goods than the shape has room for.
    pub open spec fn valid(self) -> bool {
        &&& self.walls.count() <= 3
        &&& self.shelf.len() <= self.capacity()
        &&& forall|i: int| 0 <= i < self.shelf.len() ==> #[trigger] self.shelf[i] == self.shelf[0]
    }

    /// The outcome of adding a wall on the given side.
    pub open spec fn add_wall(self, side: Direction) -> Result<CellView, Error> {
        if self.walls.has(side) {
            Err(Error::WallExists)
        } else if self.walls.count() >= 3 {
            Err(Error::CellInvalid)
        } else {
            Ok(CellView { walls: self.walls.with(side), ..self })
        }
    }

    /// The cell after an attempt to add a wall: unchanged where the wall
    /// cannot be added.
    pub open spec fn with_wall(self, side: Direction) -> CellView {
        match self.add_wall(side) {
            Ok(c) => c,
            Err(_) => self,
        }
    }

    /// The outcome of putting a good on the shelf. (A valid cell never holds
    /// more goods than its capacity, so the shelf is full exactly when the
    /// two are equal.)
    pub open spec fn put_good(self, good: Seq<char>) -> Result<CellView, Error> {
        if self.shelf.len() > 0 && self.shelf[0] != good {
            Err(Error::GoodsIncompatible)
        } else if self.shelf.len() >= self.capacity() {
            Err(Error::StorageExceeded)
        } else {
            Ok(CellView { shelf: self.shelf.push(good), ..self })
        }
    }

    /// The cell after an attempt to put a good on the shelf: unchanged where
    /// the good is refused.
    pub open spec fn with_good(self, good: Seq<char>) -> CellView {
        match self.put_good(good) {
            Ok(c) => c,
            Err(_) => self,
        }
    }

    /// The cell after a visit.
    pub open spec fn visit(self) -> CellView {
        CellView { visited: true, ..self }
    }

    /// The cell after `n` attempts to put the same good on the shelf.
    pub open spec fn with_goods(self, good: Seq<char>, n: nat) -> CellView
        decreases n,
    {
        if n == 0 {
            self
        } else {
            self.with_goods(good, (n - 1) as nat).with_good(good)
        }
    }

    /// The line that describes the cell: position, used and total storage and
    /// the kind of good.
    pub open spec fn text(self) -> Seq<char> {
        "Cell: "@ + self.pos.text() + " - Storage ("@ + decimal(self.shelf.len()) + "/"@ + decimal(
            self.capacity(),
        ) + ") - Goods: "@ + self.good_type()
    }
}

/// What a cell keeps behind its position and label. Every value keeps to
/// what `CellView::valid` says.
#[derive(Debug, PartialEq)]
struct CellState {
    walls: Walls,
    shelf_inventory: Vec<String>,
    visited: bool,
}

impl CellState {
    spec fn shelf(self) -> Seq<Seq<char>> {
        Seq::new(self.shelf_inventory@.len(), |i: int| self.shelf_inventory@[i]@)
    }

    #[verifier::type_invariant]
    spec fn keeps_rules(self) -> bool {
        &&& self.walls.count() <= 3
        &&& self.shelf().len() <= capacity_of(shape_of(self.walls))
        &&& forall|i: int| 0 <= i < self.shelf().len() ==> #[trigger] self.shelf()[i] == self.shelf()[0]
    }

    fn empty() -> (state: Self)
        ensures
            state.walls == Walls::none(),
            state.shelf() == Seq::<Seq<char>>::empty(),
            !state.visited,
    {
        let state = CellState {
            walls: Walls { east: false, north: false, south: false, west: false },
            shelf_inventory: Vec::new(),
            visited: false,
        };
        assert(state.shelf() =~= Seq::<Seq<char>>::empty());
        state
    }
}

/// A cell of the warehouse.
#[derive(Debug, PartialEq)]
pub struct Cell {
    pub pos: Coords2D,
    pub id: String,
    state: CellState,
}

impl View for Cell {
    type V = CellView;

    closed spec fn view(&self) -> CellView {
        CellView {
            pos: self.pos,
            id: self.id@,
            walls: self.state.walls,
            shelf: self.state.shelf(),
            visited: self.state.visited,
        }
    }
}

impl Cell {
    /// A cell at `pos` without walls, goods or visit.
    pub fn new(pos: Coords2D) -> (c: Self)
        ensures
            c@ == CellView::blank(pos, Seq::empty()),
            c@.valid(),
    {
        let c = Self {
            pos,
            id: String::new(),
            state: CellState::empty(),
        };
        c
    }

    /// A cell at `pos` that carries the given label.
    pub fn labelled(pos: Coords2D, id: String) -> (c: Self)
        ensures
            c@ == CellView::blank(pos, id@),
            c@.valid(),
    {
        let c = Self {
            pos,
            id,
            state: CellState::empty(),
        };
        c
    }

    /// The position that the cell carries.
    pub fn position(&self) -> (pos: Coords2D)
        ensures
            pos == self@.pos,
    {
        self.pos
    }

    /// The label that the cell carries.
    pub fn label(&self) -> (id: &str)
        ensures
            id@ == self@.id,
    {
        self.id.as_str()
    }

    /// A cell at the origin that carries the given label.
    pub fn with_id(id: String) -> (c: Self)
        ensures
            c@ == CellView::blank(Coords2D { x: 0, y: 0 }, id@),
            c@.valid(),
    {
        let c = Self {
            pos: Coords2D { x: 0, y: 0 },
            id,
            state: CellState::empty(),
        };
        c
    }

    /// Whether there is a wall on the given side.
    pub fn has_wall(&self, side: &Direction) -> (r: bool)
        ensures
            r == self@.walls.has(*side),
    {
        match side {
            Direction::NORTH => self.state.walls.north,
            Direction::EAST => self.state.walls.east,
            Direction::SOUTH => self.state.walls.south,
            Direction::WEST => self.state.walls.west,
        }
    }

    /// The sides with a wall. There are at most three, as every cell keeps to
    /// what `CellView::valid` says.
    pub fn walls(&self) -> (r: Walls)
        ensures
            r == self@.walls,
            self@.valid(),
    {
        proof {
            use_type_invariant(&self.state);
        }
        self.state.walls
    }

    /// The sides with a wall, in the order north, east, south, west.
    pub fn get_walls(&self) -> (r: Vec<Direction>)
        ensures
            r@ == self@.walls.list(),
            r@.len() == self@.walls.count(),
    {
        let mut list: Vec<Direction> = Vec::new();
        if self.state.walls.north {
            list.push(Direction::NORTH);
        }
        if self.state.walls.east {
            list.push(Direction::EAST);
        }
        if self.state.walls.south {
            list.push(Direction::SOUTH);
        }
        if self.state.walls.west {
            list.push(Direction::WEST);
        }
        assert(list@ =~= self@.walls.list());
        list
    }

    fn wall_count(&self) -> (n: usize)
        ensures
            n == self@.walls.count(),
    {
        let mut n: usize = 0;
        if self.state.walls.north {
            n += 1;
        }
        if self.state.walls.east {
            n += 1;
        }
        if self.state.walls.south {
            n += 1;
        }
        if self.state.walls.west {
            n += 1;
        }
        n
    }

    /// Adds a wall on the given side and gives the shape that the cell then
    /// has. A wall that is already there is refused with `WallExists`, a
    /// fourth wall with `CellInvalid`; the cell is then left as it was.
    pub fn add_wall(&mut self, side: Direction) -> (r: Result<CellType, Error>)
        ensures
            match r {
                Ok(shape) => old(self)@.add_wall(side) == Ok::<CellView, Error>(final(self)@)
                    && shape == final(self)@.shape(),
                Err(e) => old(self)@.add_wall(side) == Err::<CellView, Error>(e) && final(self)@
                    == old(self)@,
            },
            final(self)@ == old(self)@.with_wall(side),
            final(self)@.valid(),
    {
        proof {
            use_type_invariant(&self.state);
        }
        if self.has_wall(&side) {
            return Err(Error::WallExists);
        }
        if self.wall_count() >= 3 {
            return Err(Error::CellInvalid);
        }
        match side {
            Direction::NORTH => {
                self.state.walls.north = true;
            },
            Direction::EAST => {
                self.state.walls.east = true;
            },
            Direction::SOUTH => {
                self.state.walls.south = true;
            },
            Direction::WEST => {
                self.state.walls.west = true;
            },
        }
        assert(self@.shelf =~= old(self)@.shelf);
        Ok(self.cell_type())
    }

    /// The shape of the cell.
    pub fn cell_type(&self) -> (shape: CellType)
        ensures
            shape == shape_of(self@.walls),
    {
        let n = self.wall_count();
        if n == 0 {
            CellType::XCross
        } else if n == 1 {
            CellType::TCross
        } else if n == 2 {
            let walls = self.state.walls;
            if (walls.north && walls.south) || (walls.east && walls.west) {
                CellType::Hallway
            } else {
                CellType::Corner
            }
        } else {
            CellType::DeadEnd
        }
    }

    /// Whether the bot has been in the cell.
    pub fn was_visited(&self) -> (r: bool)
        ensures
            r == self@.visited,
    {
        self.state.visited
    }

    /// Marks the cell as visited.
    pub fn visit(&mut self)
        ensures
            final(self)@ == old(self)@.visit(),
            final(self)@.valid(),
    {
        proof {
            use_type_invariant(&self.state);
        }
        self.state.visited = true;
        assert(self@.shelf =~= old(self)@.shelf);
    }

    /// The number of goods on the shelf; never more than there is room for.
    pub fn occupied_storage(&self) -> (n: usize)
        ensures
            n == self@.shelf.len(),
            n <= self@.capacity(),
            self@.valid(),
    {
        proof {
            use_type_invariant(&self.state);
        }
        self.state.shelf_inventory.len()
    }

    /// The number of goods that the shelf has room for.
    pub fn storage_capacity(&self) -> (n: usize)
        ensures
            n == self@.capacity(),
    {
        match self.cell_type() {
            CellType::XCross => 4,
            CellType::TCross => 6,
            CellType::Hallway => 8,
            CellType::Corner => 9,
            CellType::DeadEnd => 12,
        }
    }

    /// Puts a good on the shelf and gives the number of goods that it then
    /// holds. A good of another kind than the shelf holds is refused with
    /// `GoodsIncompatible`, any good on a full shelf with `StorageExceeded`;
    /// the cell is then left as it was.
    pub fn put_good_on_shelf(&mut self, good: String) -> (r: Result<usize, Error>)
        ensures
            match r {
                Ok(n) => old(self)@.put_good(good@) == Ok::<CellView, Error>(final(self)@) && n
                    == final(self)@.shelf.len(),
                Err(e) => old(self)@.put_good(good@) == Err::<CellView, Error>(e) && final(self)@
                    == old(self)@,
            },
            final(self)@ == old(self)@.with_good(good@),
            final(self)@.valid(),
    {
        proof {
            use_type_invariant(&self.state);
        }
        if self.state.shelf_inventory.len() > 0 {
            let same = self.state.shelf_inventory[0] == good;
            if !same {
                return Err(Error::GoodsIncompatible);
            }
        }
        if self.state.shelf_inventory.len() >= self.storage_capacity() {
            return Err(Error::StorageExceeded);
        }
        let ghost before = self.state.shelf();
        let mut shelf: Vec<String> = Vec::new();
        std::mem::swap(&mut shelf, &mut self.state.shelf_inventory);
        shelf.push(good);
        proof {
            let after = Seq::new(shelf@.len(), |i: int| shelf@[i]@);
            assert(after =~= before.push(good@));
            assert forall|i: int| 0 <= i < after.len() implies #[trigger] after[i] == after[0] by {
                if i < before.len() {
                    assert(before[i] == before[0]);
                }
            }
        }
        self.state.shelf_inventory = shelf;
        assert(self@.shelf =~= old(self)@.shelf.push(good@));
        Ok(self.state.shelf_inventory.len())
    }

    /// The kind of good on the shelf, or `"-"` for an empty shelf.
    pub fn stored_good_type(&self) -> (r: &str)
        ensures
            r@ == self@.good_type(),
    {
        if self.state.shelf_inventory.len() > 0 {
            self.state.shelf_inventory[0].as_str()
        } else {
            "-"
        }
    }

    /// The goods on the shelf, in the order in which they were put there.
    pub fn shelf_items(&self) -> (items: Vec<String>)
        ensures
            items@.len() == self@.shelf.len(),
            forall|i: int| 0 <= i < items@.len() ==> (#[trigger] items@[i])@ == self@.shelf[i],
    {
        let mut items: Vec<String> = Vec::new();
        let mut i: usize = 0;
        while i < self.state.shelf_inventory.len()
            invariant
                i <= self.state.shelf_inventory.len(),
                items@.len() == i,
                forall|k: int| 0 <= k < i ==> (#[trigger] items@[k])@ == self@.shelf[k],
            decreases self.state.shelf_inventory.len() - i,
        {
            items.push(self.state.shelf_inventory[i].clone());
            i += 1;
        }
        items
    }

    /// A line that describes the cell: see `CellView::text`.
    pub fn to_string(&self) -> (r: String)
        ensures
            r@ == self@.text(),
    {
        let mut out = String::new();
        out.append("Cell: ");
        out.append(self.pos.to_string().as_str());
        out.append(" - Storage (");
        push_decimal(&mut out, self.occupied_storage() as u64);
        out.append("/");
        push_decimal(&mut out, self.storage_capacity() as u64);
        out.append(") - Goods: ");
        out.append(self.stored_good_type());
        assert(out@ =~= self@.text());
        out
    }
}

impl Default for Cell {
    fn default() -> (c: Self)
        ensures
            c@ == CellView::blank(Coords2D { x: 0, y: 0 }, Seq::empty()),
            c@.valid(),
    {
        Cell::new(Coords2D { x: 0, y: 0 })
    }
}

/// Shape and capacity follow from the walls alone: no wall makes an `XCross`
/// with room for 4, one a `TCross` with room for 6, two that face each other
/// a `Hallway` with room for 8, two that meet a `Corner` with room for 9, and
/// three a `DeadEnd` with room for 12.
pub proof fn lemma_shape_table(walls: Walls)
    requires
        walls.count() <= 3,
    ensures
        walls.count() == 0 ==> shape_of(walls) == CellType::XCross && capacity_of(shape_of(walls))
            == 4,
        walls.count() == 1 ==> shape_of(walls) == CellType::TCross && capacity_of(shape_of(walls))
            == 6,
        walls.count() == 2 && (walls.north == walls.south) ==> shape_of(walls) == CellType::Hallway
            && capacity_of(shape_of(walls)) == 8,
        walls.count() == 2 && (walls.north != walls.south) ==> shape_of(walls) == CellType::Corner
            && capacity_of(shape_of(walls)) == 9,
        walls.count() == 3 ==> shape_of(walls) == CellType::DeadEnd && capacity_of(shape_of(walls))
            == 12,
{
}

/// A cell with three walls refuses the fourth and stays as it is.
pub proof fn lemma_fourth_wall_refused(cell: CellView, side: Direction)
    requires
        cell.walls.count() == 3,
        !cell.walls.has(side),
    ensures
        cell.add_wall(side) == Err::<CellView, Error>(Error::CellInvalid),
        cell.with_wall(side) == cell,
{
}

/// Putting the same good on a shelf again and again succeeds until the shelf
/// is full and is refused with `StorageExceeded` from then on: after `n`
/// attempts the shelf holds `n` more goods, or as many as it has room for.
pub proof fn lemma_shelf_fills_to_capacity(cell: CellView, good: Seq<char>, n: nat)
    requires
        cell.valid(),
        cell.shelf.len() > 0 ==> cell.shelf[0] == good,
    ensures
        ({
            let after = cell.with_goods(good, n);
            &&& after.valid()
            &&& after == CellView { shelf: after.shelf, ..cell }
            &&& after.shelf.len() == if cell.shelf.len() + n <= cell.capacity() {
                cell.shelf.len() + n
            } else {
                cell.capacity()
            }
            &&& forall|i: int| 0 <= i < after.shelf.len() ==> #[trigger] after.shelf[i] == good
            &&& cell.shelf.len() + n < cell.capacity() ==> after.put_good(good) is Ok
            &&& cell.shelf.len() + n >= cell.capacity() ==> after.put_good(good) == Err::<
                CellView,
                Error,
            >(Error::StorageExceeded)
        }),
    decreases n,
{
    if n > 0 {
        lemma_shelf_fills_to_capacity(cell, good, (n - 1) as nat);
        let before = cell.with_goods(good, (n - 1) as nat);
        if before.shelf.len() > 0 {
            assert(before.shelf[0] == good);
        }
    } else {
        if cell.shelf.len() > 0 {
            assert(forall|i: int|
                0 <= i < cell.shelf.len() ==> #[trigger] cell.shelf[i] == cell.shelf[0]);
        }
    }
}

/// A shelf that holds one kind of good refuses every other kind and stays as
/// it is.
pub proof fn lemma_other_good_refused(cell: CellView, good: Seq<char>)
    requires
        cell.shelf.len() > 0,
        cell.shelf[0] != good,
    ensures
        cell.put_good(good) == Err::<CellView, Error>(Error::GoodsIncompatible),
        cell.with_good(good) == cell,
{
}

} // verus!
