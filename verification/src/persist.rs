//! The form in which the map is kept outside the program: one record for each
//! cell, under the text of its position.

use crate::cell::{Cell, CellView, Walls};
use crate::coords::{lemma_coords_text_round_trip, parse_coords, Coords2D};
use crate::direction::{
    direction_to_literal, lemma_direction_name_round_trip, literal_to_direction, Direction,
};
use crate::text::same_text;
use vstd::prelude::*;

verus! {

/// What is kept of a cell.
#[derive(Debug, Clone, PartialEq, Eq)]
pub struct CellRecord {
    pub x: i32,
    pub y: i32,
    pub id: String,
    /// The names of the sides with a wall.
    pub walls: Vec<String>,
    /// The goods on the shelf, in order.
    pub items: Vec<String>,
    pub visited: bool,
    /// The name of the shape.
    pub shape: String,
}

/// A record together with the text of the position at which its cell stands.
#[derive(Debug, Clone, PartialEq, Eq)]
pub struct StoredCell {
    pub key: String,
    pub cell: CellRecord,
}

/// A record as plain mathematical values.
pub struct CellRecordView {
    pub x: i32,
    pub y: i32,
    pub id: Seq<char>,
    pub walls: Seq<Seq<char>>,
    pub items: Seq<Seq<char>>,
    pub visited: bool,
    pub shape: Seq<char>,
}

/// A stored cell as plain mathematical values.
pub struct StoredCellView {
    pub key: Seq<char>,
    pub cell: CellRecordView,
}

/// The views of the given texts.
pub open spec fn texts(list: Seq<String>) -> Seq<Seq<char>> {
    Seq::new(list.len(), |i: int| list[i]@)
}

impl View for CellRecord {
    type V = CellRecordView;

    open spec fn view(&self) -> CellRecordView {
        CellRecordView {
            x: self.x,
            y: self.y,
            id: self.id@,
            walls: texts(self.walls@),
            items: texts(self.items@),
            visited: self.visited,
            shape: self.shape@,
        }
    }
}

impl View for StoredCell {
    type V = StoredCellView;

    open spec fn view(&self) -> StoredCellView {
        StoredCellView { key: self.key@, cell: self.cell@ }
    }
}

/// The views of the given stored cells.
pub open spec fn stored_views(list: Seq<StoredCell>) -> Seq<StoredCellView> {
    Seq::new(list.len(), |i: int| list[i]@)
}

/// The names of the given directions.
pub open spec fn names(sides: Seq<Direction>) -> Seq<Seq<char>> {
    Seq::new(sides.len(), |i: int| sides[i].name())
}

/// The record of a cell.
pub open spec fn record_of(cell: CellView) -> CellRecordView {
    CellRecordView {
        x: cell.pos.x,
        y: cell.pos.y,
        id: cell.id,
        walls: names(cell.walls.list()),
        items: cell.shelf,
        visited: cell.visited,
        shape: cell.shape().name_spec(),
    }
}

/// The cell after walls have been added on the sides with the given names,
/// one after the other; `None` where a name is no direction or the cell
/// refuses a wall.
pub open spec fn with_walls_named(cell: CellView, sides: Seq<Seq<char>>) -> Option<CellView>
    decreases sides.len(),
{
    if sides.len() == 0 {
        Some(cell)
    } else {
        match (with_walls_named(cell, sides.drop_last()), Direction::named(sides.last())) {
            (Some(c), Some(side)) => match c.add_wall(side) {
                Ok(walled) => Some(walled),
                Err(_) => None,
            },
            _ => None,
        }
    }
}

/// The cell after the given goods have been put on its shelf, one after the
/// other; `None` where the shelf refuses one.
pub open spec fn with_goods_listed(cell: CellView, goods: Seq<Seq<char>>) -> Option<CellView>
    decreases goods.len(),
{
    if goods.len() == 0 {
        Some(cell)
    } else {
        match with_goods_listed(cell, goods.drop_last()) {
            Some(c) => match c.put_good(goods.last()) {
                Ok(stocked) => Some(stocked),
                Err(_) => None,
            },
            None => None,
        }
    }
}

/// The cell that a record describes; `None` where the record describes none:
/// where it names a side that is no direction, or one side twice, or four
/// sides; where the shape is not the one that the walls give; or where the
/// shelf could not hold the goods.
pub open spec fn restore_cell(record: CellRecordView) -> Option<CellView> {
    let blank = CellView::blank(Coords2D { x: record.x, y: record.y }, record.id);
    match with_walls_named(blank, record.walls) {
        Some(walled) => if walled.shape().name_spec() != record.shape {
            None
        } else {
            match with_goods_listed(walled, record.items) {
                Some(stocked) => Some(
                    if record.visited {
                        stocked.visit()
                    } else {
                        stocked
                    },
                ),
                None => None,
            }
        },
        None => None,
    }
}

/// What is kept of the cell at `pos` of the map `m`.
pub open spec fn stored(m: Map<Coords2D, CellView>, pos: Coords2D) -> StoredCellView {
    StoredCellView { key: pos.text(), cell: record_of(m[pos]) }
}

/// Whether one of the first `n` records stands under the text of `pos`.
pub open spec fn has_record(records: Seq<StoredCellView>, n: int, pos: Coords2D) -> bool {
    exists|i: int| 0 <= i < n && i < records.len() && (#[trigger] records[i]).key == pos.text()
}

/// Whether `records` holds the map `m`: every record is that of a cell of the
/// map, under the text of its position, and every cell of the map has one.
pub open spec fn holds_map(records: Seq<StoredCellView>, m: Map<Coords2D, CellView>) -> bool {
    &&& forall|i: int|
        0 <= i < records.len() ==> match parse_coords((#[trigger] records[i]).key) {
            Some(pos) => m.contains_key(pos) && records[i] == stored(m, pos),
            None => false,
        }
    &&& forall|pos: Coords2D| #[trigger]
        m.contains_key(pos) ==> has_record(records, records.len() as int, pos)
}

/// The map that the given records describe, a later record taking the place
/// of an earlier one for the same position; `None` where the text of a
/// position cannot be read or a record describes no cell.
pub open spec fn restore_map(records: Seq<StoredCellView>) -> Option<Map<Coords2D, CellView>>
    decreases records.len(),
{
    if records.len() == 0 {
        Some(Map::empty())
    } else {
        match (
            restore_map(records.drop_last()),
            parse_coords(records.last().key),
            restore_cell(records.last().cell),
        ) {
            (Some(m), Some(pos), Some(cell)) => Some(m.insert(pos, cell)),
            _ => None,
        }
    }
}

/// Writes the record of a cell.
pub fn cell_to_record(cell: &Cell) -> (record: CellRecord)
    ensures
        record@ == record_of(cell@),
        cell@.valid(),
{
    let _walls = cell.walls();
    let sides = cell.get_walls();
    let mut walls: Vec<String> = Vec::new();
    let mut i: usize = 0;
    while i < sides.len()
        invariant
            0 <= i <= sides.len(),
            walls@.len() == i,
            forall|k: int| 0 <= k < i ==> (#[trigger] walls@[k])@ == sides@[k].name(),
        decreases sides.len() - i,
    {
        walls.push(String::from_str(direction_to_literal(&sides[i])));
        i += 1;
    }
    let items = cell.shelf_items();
    let pos = cell.position();
    let record = CellRecord {
        x: pos.x,
        y: pos.y,
        id: String::from_str(cell.label()),
        walls,
        items,
        visited: cell.was_visited(),
        shape: String::from_str(cell.cell_type().name()),
    };
    assert(record@.walls =~= names(cell@.walls.list()));
    assert(record@.items =~= cell@.shelf);
    record
}

/// Reads a cell from its record: see `restore_cell`.
pub fn cell_from_record(record: &CellRecord) -> (cell: Option<Cell>)
    ensures
        match cell {
            Some(c) => restore_cell(record@) == Some(c@) && c@.valid(),
            None => restore_cell(record@) is None,
        },
{
    let mut cell = Cell::labelled(Coords2D { x: record.x, y: record.y }, record.id.clone());
    let ghost blank = cell@;
    let ghost sides = record@.walls;
    let mut i: usize = 0;
    assert(sides.take(0) =~= Seq::<Seq<char>>::empty());
    while i < record.walls.len()
        invariant
            0 <= i <= record.walls.len(),
            sides == record@.walls,
            blank == CellView::blank(Coords2D { x: record.x, y: record.y }, record@.id),
            with_walls_named(blank, sides.take(i as int)) == Some(cell@),
            cell@.valid(),
        decreases record.walls.len() - i,
    {
        assert(sides.take(i + 1).drop_last() =~= sides.take(i as int));
        assert(sides.take(i + 1).last() == record.walls@[i as int]@);
        assert(sides.take(sides.len() as int) =~= sides);
        match literal_to_direction(record.walls[i].as_str()) {
            Some(side) => {
                if cell.add_wall(side).is_err() {
                    proof {
                        lemma_walls_stay_refused(blank, sides, i + 1);
                    }
                    return None;
                }
            },
            None => {
                proof {
                    lemma_walls_stay_refused(blank, sides, i + 1);
                }
                return None;
            },
        }
        i += 1;
    }
    assert(sides.take(i as int) =~= sides);
    if !same_text(cell.cell_type().name(), record.shape.as_str()) {
        return None;
    }
    let ghost walled = cell@;
    let ghost goods = record@.items;
    let mut j: usize = 0;
    assert(goods.take(0) =~= Seq::<Seq<char>>::empty());
    while j < record.items.len()
        invariant
            0 <= j <= record.items.len(),
            goods == record@.items,
            blank == CellView::blank(Coords2D { x: record.x, y: record.y }, record@.id),
            with_walls_named(blank, record@.walls) == Some(walled),
            walled.shape().name_spec() == record@.shape,
            with_goods_listed(walled, goods.take(j as int)) == Some(cell@),
            cell@.valid(),
        decreases record.items.len() - j,
    {
        assert(goods.take(j + 1).drop_last() =~= goods.take(j as int));
        assert(goods.take(j + 1).last() == record.items@[j as int]@);
        assert(goods.take(goods.len() as int) =~= goods);
        if cell.put_good_on_shelf(record.items[j].clone()).is_err() {
            proof {
                lemma_goods_stay_refused(walled, goods, j + 1);
            }
            return None;
        }
        j += 1;
    }
    assert(goods.take(j as int) =~= goods);
    if record.visited {
        cell.visit();
    }
    Some(cell)
}

/// Once a wall has been refused, the whole list is.
proof fn lemma_walls_stay_refused(cell: CellView, sides: Seq<Seq<char>>, n: int)
    requires
        0 <= n <= sides.len(),
        with_walls_named(cell, sides.take(n)) is None,
    ensures
        with_walls_named(cell, sides) is None,
    decreases sides.len() - n,
{
    if n < sides.len() {
        assert(sides.take(n + 1).drop_last() =~= sides.take(n));
        lemma_walls_stay_refused(cell, sides, n + 1);
    } else {
        assert(sides.take(n) =~= sides);
    }
}

/// Once a good has been refused, the whole list is.
proof fn lemma_goods_stay_refused(cell: CellView, goods: Seq<Seq<char>>, n: int)
    requires
        0 <= n <= goods.len(),
        with_goods_listed(cell, goods.take(n)) is None,
    ensures
        with_goods_listed(cell, goods) is None,
    decreases goods.len() - n,
{
    if n < goods.len() {
        assert(goods.take(n + 1).drop_last() =~= goods.take(n));
        lemma_goods_stay_refused(cell, goods, n + 1);
    } else {
        assert(goods.take(n) =~= goods);
    }
}

/// The goods of a valid cell can be put on its empty shelf one after the
/// other.
proof fn lemma_goods_restore(cell: CellView, n: int)
    requires
        cell.valid(),
        0 <= n <= cell.shelf.len(),
    ensures
        with_goods_listed(CellView { shelf: Seq::empty(), ..cell }, cell.shelf.take(n)) == Some(
            CellView { shelf: cell.shelf.take(n), ..cell },
        ),
    decreases n,
{
    let bare = CellView { shelf: Seq::empty(), ..cell };
    if n == 0 {
        assert(cell.shelf.take(0) =~= Seq::<Seq<char>>::empty());
    } else {
        lemma_goods_restore(cell, n - 1);
        assert(cell.shelf.take(n).drop_last() =~= cell.shelf.take(n - 1));
        let before = CellView { shelf: cell.shelf.take(n - 1), ..cell };
        assert(cell.shelf[n - 1] == cell.shelf[0]);
        assert(before.shelf.push(cell.shelf[n - 1]) =~= cell.shelf.take(n));
    }
}

/// The walls of a valid cell can be added to a cell without walls one after
/// the other, by their names.
proof fn lemma_walls_restore(blank: CellView, walls: Walls)
    requires
        blank.walls == Walls::none(),
        walls.count() <= 3,
    ensures
        with_walls_named(blank, names(walls.list())) == Some(CellView { walls, ..blank }),
{
    lemma_direction_name_round_trip(Direction::NORTH);
    lemma_direction_name_round_trip(Direction::EAST);
    lemma_direction_name_round_trip(Direction::SOUTH);
    lemma_direction_name_round_trip(Direction::WEST);
    let list = walls.list();
    let sides = names(list);
    assert(sides.len() == list.len());
    assert(sides.take(0) =~= Seq::<Seq<char>>::empty());
    assert(with_walls_named(blank, sides.take(0)) == Some(blank));
    if list.len() >= 1 {
        assert(sides.take(1).drop_last() =~= sides.take(0));
        assert(sides.take(1).last() == list[0].name());
        assert(with_walls_named(blank, sides.take(1)) == Some(
            CellView { walls: Walls::none().with(list[0]), ..blank },
        ));
    }
    if list.len() >= 2 {
        assert(sides.take(2).drop_last() =~= sides.take(1));
        assert(sides.take(2).last() == list[1].name());
        assert(with_walls_named(blank, sides.take(2)) == Some(
            CellView { walls: Walls::none().with(list[0]).with(list[1]), ..blank },
        ));
    }
    if list.len() >= 3 {
        assert(sides.take(3).drop_last() =~= sides.take(2));
        assert(sides.take(3).last() == list[2].name());
        assert(with_walls_named(blank, sides.take(3)) == Some(
            CellView { walls: Walls::none().with(list[0]).with(list[1]).with(list[2]), ..blank },
        ));
    }
    assert(sides.take(list.len() as int) =~= sides);
}

/// Reading the record of a valid cell gives the cell back.
pub proof fn lemma_cell_round_trip(cell: CellView)
    requires
        cell.valid(),
    ensures
        restore_cell(record_of(cell)) == Some(cell),
{
    let record = record_of(cell);
    let blank = CellView::blank(cell.pos, cell.id);
    lemma_walls_restore(blank, cell.walls);
    let walled = CellView { walls: cell.walls, ..blank };
    let full = CellView { visited: false, ..cell };
    lemma_goods_restore(full, cell.shelf.len() as int);
    assert(cell.shelf.take(cell.shelf.len() as int) =~= cell.shelf);
    assert(walled == CellView { shelf: Seq::empty(), ..full });
}

/// Once a record has been refused, the whole list is.
pub proof fn lemma_records_stay_refused(records: Seq<StoredCellView>, n: int)
    requires
        0 <= n <= records.len(),
        restore_map(records.take(n)) is None,
    ensures
        restore_map(records) is None,
    decreases records.len() - n,
{
    if n < records.len() {
        assert(records.take(n + 1).drop_last() =~= records.take(n));
        lemma_records_stay_refused(records, n + 1);
    } else {
        assert(records.take(n) =~= records);
    }
}

/// The cells of `m` that have a record among the first `n` records.
pub open spec fn recorded_part(records: Seq<StoredCellView>, m: Map<Coords2D, CellView>, n: int) -> Map<
    Coords2D,
    CellView,
> {
    Map::new(|pos: Coords2D| m.contains_key(pos) && has_record(records, n, pos), |pos: Coords2D| m[pos])
}

/// Reading what was written of a map of valid cells gives the map back.
pub proof fn lemma_map_round_trip(records: Seq<StoredCellView>, m: Map<Coords2D, CellView>)
    requires
        holds_map(records, m),
        forall|pos: Coords2D| m.contains_key(pos) ==> (#[trigger] m[pos]).valid(),
    ensures
        restore_map(records) == Some(m),
{
    lemma_prefix_round_trip(records, m, records.len() as int);
    assert(records.take(records.len() as int) =~= records);
    assert(recorded_part(records, m, records.len() as int) =~= m);
}

/// The first `n` of the records of a map give back the cells of which they
/// are the records.
proof fn lemma_prefix_round_trip(records: Seq<StoredCellView>, m: Map<Coords2D, CellView>, n: int)
    requires
        holds_map(records, m),
        forall|pos: Coords2D| m.contains_key(pos) ==> (#[trigger] m[pos]).valid(),
        0 <= n <= records.len(),
    ensures
        restore_map(records.take(n)) == Some(recorded_part(records, m, n)),
    decreases n,
{
    if n == 0 {
        assert(records.take(0) =~= Seq::<StoredCellView>::empty());
        assert(recorded_part(records, m, 0) =~= Map::<Coords2D, CellView>::empty());
    } else {
        lemma_prefix_round_trip(records, m, n - 1);
        let head = records.take(n);
        assert(head.drop_last() =~= records.take(n - 1));
        assert(head.last() == records[n - 1]);
        let last = records[n - 1];
        let pos = parse_coords(last.key)->Some_0;
        assert(m.contains_key(pos) && last == stored(m, pos));
        lemma_cell_round_trip(m[pos]);
        let before = recorded_part(records, m, n - 1);
        let after = recorded_part(records, m, n);
        assert(restore_map(head) == Some(before.insert(pos, m[pos])));
        assert(before.insert(pos, m[pos]) =~= after) by {
            let grown = before.insert(pos, m[pos]);
            assert forall|p: Coords2D| grown.contains_key(p) implies after.contains_key(p) by {
                if p == pos {
                    assert(records[n - 1].key == p.text());
                } else {
                    let i = choose|i: int|
                        0 <= i < n - 1 && i < records.len() && (#[trigger] records[i]).key == p.text();
                    assert(0 <= i < n && records[i].key == p.text());
                }
            }
            assert forall|p: Coords2D| after.contains_key(p) implies grown.contains_key(p) by {
                let i = choose|i: int|
                    0 <= i < n && i < records.len() && (#[trigger] records[i]).key == p.text();
                if i == n - 1 {
                    lemma_coords_text_round_trip(p);
                    assert(p == pos);
                } else {
                    assert(0 <= i < n - 1 && records[i].key == p.text());
                }
            }
        }
    }
}

} // verus!
