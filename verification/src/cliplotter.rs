//! Draws the known part of the warehouse as text.
//!
//! Every position takes two characters in each of two lines: above, the corner
//! and the wall to the north; below, the wall to the west and what stands in
//! the cell. One more row and one more column close the drawing at the bottom
//! and on the right. Where no cell is known, the walls of the neighbours to
//! the north and west are drawn, as a wall belongs to both cells it parts.

use crate::cell::{Cell, CellView};
use crate::coords::{in_coordinate_range, Coords2D};
use crate::grid::CellGrid;
use vstd::prelude::*;

verus! {

pub const ROBOT_SPRITE: &'static str = "o";

pub const NORTH_WALL: &'static str = "+-";

pub const NORTH_WEST_CORNER: &'static str = "+ ";

pub const WEST_WALL: &'static str = "|";

/// Whether `bounds`, given as ((least x, greatest x), (least y, greatest y)),
/// are the bounds of the positions in `positions`.
pub open spec fn is_bounding_box(positions: Set<Coords2D>, bounds: ((i32, i32), (i32, i32))) -> bool {
    let ((x_min, x_max), (y_min, y_max)) = bounds;
    &&& exists|p: Coords2D| #[trigger] positions.contains(p) && p.x == x_min
    &&& exists|p: Coords2D| #[trigger] positions.contains(p) && p.x == x_max
    &&& exists|p: Coords2D| #[trigger] positions.contains(p) && p.y == y_min
    &&& exists|p: Coords2D| #[trigger] positions.contains(p) && p.y == y_max
    &&& forall|p: Coords2D| #[trigger]
        positions.contains(p) ==> x_min <= p.x <= x_max && y_min <= p.y <= y_max
}

/// The bounds of a set of positions that is not empty.
pub open spec fn bounding_box(positions: Set<Coords2D>) -> ((i32, i32), (i32, i32)) {
    choose|bounds: ((i32, i32), (i32, i32))| is_bounding_box(positions, bounds)
}

/// A set of positions has only one bounding box.
pub proof fn lemma_bounding_box_unique(positions: Set<Coords2D>, bounds: ((i32, i32), (i32, i32)))
    requires
        is_bounding_box(positions, bounds),
    ensures
        bounding_box(positions) == bounds,
        bounds.0.0 <= bounds.0.1,
        bounds.1.0 <= bounds.1.1,
{
    let other = bounding_box(positions);
    assert(is_bounding_box(positions, other));
}

/// The cell at the position with the coordinates `x` and `y`, where these are
/// on the grid and a cell is known there.
pub open spec fn cell_at(m: Map<Coords2D, CellView>, x: int, y: int) -> Option<CellView> {
    if in_coordinate_range(x) && in_coordinate_range(y) && m.contains_key(
        Coords2D { x: x as i32, y: y as i32 },
    ) {
        Some(m[Coords2D { x: x as i32, y: y as i32 }])
    } else {
        None
    }
}

/// The two characters above the position (`x`, `y`): its own north wall
/// where a cell is known there; else the south wall of the cell to the north;
/// else a bare corner where a cell is known to the west or the north-west;
/// else nothing.
pub open spec fn top_glyph(m: Map<Coords2D, CellView>, x: int, y: int) -> Seq<char> {
    match cell_at(m, x, y) {
        Some(cell) => if cell.walls.north {
            NORTH_WALL@
        } else {
            NORTH_WEST_CORNER@
        },
        None => match cell_at(m, x, y - 1) {
            Some(north) => if north.walls.south {
                NORTH_WALL@
            } else {
                NORTH_WEST_CORNER@
            },
            None => if cell_at(m, x - 1, y - 1) is Some || cell_at(m, x - 1, y) is Some {
                NORTH_WEST_CORNER@
            } else {
                "  "@
            },
        },
    }
}

/// The two characters at the position (`x`, `y`): the west wall and the bot,
/// where a cell is known there; else the east wall of the cell to the west.
pub open spec fn side_glyph(m: Map<Coords2D, CellView>, bot: Option<Coords2D>, x: int, y: int) -> Seq<
    char,
> {
    match cell_at(m, x, y) {
        Some(cell) => (if cell.walls.west {
            WEST_WALL@
        } else {
            " "@
        }) + (if bot == Some(Coords2D { x: x as i32, y: y as i32 }) {
            ROBOT_SPRITE@
        } else {
            " "@
        }),
        None => match cell_at(m, x - 1, y) {
            Some(west) => if west.walls.east {
                WEST_WALL@ + " "@
            } else {
                "  "@
            },
            None => "  "@,
        },
    }
}

/// The upper line of row `y`, for the columns `x_from` to `x_to`.
pub open spec fn top_line(m: Map<Coords2D, CellView>, x_from: int, x_to: int, y: int) -> Seq<char>
    decreases x_to - x_from + 1,
{
    if x_to < x_from {
        Seq::empty()
    } else {
        top_line(m, x_from, x_to - 1, y) + top_glyph(m, x_to, y)
    }
}

/// The lower line of row `y`, for the columns `x_from` to `x_to`.
pub open spec fn side_line(
    m: Map<Coords2D, CellView>,
    bot: Option<Coords2D>,
    x_from: int,
    x_to: int,
    y: int,
) -> Seq<char>
    decreases x_to - x_from + 1,
{
    if x_to < x_from {
        Seq::empty()
    } else {
        side_line(m, bot, x_from, x_to - 1, y) + side_glyph(m, bot, x_to, y)
    }
}

/// The two lines of row `y`, each closed by a line feed.
pub open spec fn row(
    m: Map<Coords2D, CellView>,
    bot: Option<Coords2D>,
    x_from: int,
    x_to: int,
    y: int,
) -> Seq<char> {
    top_line(m, x_from, x_to, y) + "\n"@ + side_line(m, bot, x_from, x_to, y) + "\n"@
}

/// The rows `y_from` to `y_to`, from the top down.
pub open spec fn rows(
    m: Map<Coords2D, CellView>,
    bot: Option<Coords2D>,
    x_from: int,
    x_to: int,
    y_from: int,
    y_to: int,
) -> Seq<char>
    decreases y_to - y_from + 1,
{
    if y_to < y_from {
        Seq::empty()
    } else {
        rows(m, bot, x_from, x_to, y_from, y_to - 1) + row(m, bot, x_from, x_to, y_to)
    }
}

/// The drawing of a map: a line feed alone where nothing is known; else a
/// line feed and then the rows from the least to one past the greatest `y`,
/// each with the columns from the least to one past the greatest `x`.
pub open spec fn drawing(m: Map<Coords2D, CellView>, bot: Option<Coords2D>) -> Seq<char> {
    if m.dom() == Set::<Coords2D>::empty() {
        "\n"@
    } else {
        let ((x_min, x_max), (y_min, y_max)) = bounding_box(m.dom());
        "\n"@ + rows(m, bot, x_min as int, x_max + 1, y_min as int, y_max + 1)
    }
}

/// The least and greatest `x` and the least and greatest `y` among the given
/// positions. For no position at all the result is ((`i32::MAX`, `i32::MIN`),
/// (`i32::MAX`, `i32::MIN`)).
pub fn min_max_xy(coords: &Vec<Coords2D>) -> (bounds: ((i32, i32), (i32, i32)))
    ensures
        coords@.len() > 0 ==> is_bounding_box(coords@.to_set(), bounds),
        coords@.len() == 0 ==> bounds == ((i32::MAX, i32::MIN), (i32::MAX, i32::MIN)),
{
    let mut min_x = i32::MAX;
    let mut max_x = i32::MIN;
    let mut min_y = i32::MAX;
    let mut max_y = i32::MIN;
    let mut i: usize = 0;
    while i < coords.len()
        invariant
            0 <= i <= coords.len(),
            i == 0 ==> min_x == i32::MAX && max_x == i32::MIN && min_y == i32::MAX && max_y
                == i32::MIN,
            i > 0 ==> is_bounding_box(
                coords@.take(i as int).to_set(),
                ((min_x, max_x), (min_y, max_y)),
            ),
        decreases coords.len() - i,
    {
        let c = coords[i];
        let ghost before = coords@.take(i as int);
        let ghost after = coords@.take(i + 1);
        let ghost old_box = ((min_x, max_x), (min_y, max_y));
        if c.x < min_x {
            min_x = c.x;
        }
        if c.x > max_x {
            max_x = c.x;
        }
        if c.y < min_y {
            min_y = c.y;
        }
        if c.y > max_y {
            max_y = c.y;
        }
        proof {
            assert(after =~= before.push(c));
            before.lemma_push_to_set_commute(c);
            assert(after.to_set().contains(c));
            if i > 0 {
                let px0 = choose|p: Coords2D| #[trigger]
                    before.to_set().contains(p) && p.x == old_box.0.0;
                let px1 = choose|p: Coords2D| #[trigger]
                    before.to_set().contains(p) && p.x == old_box.0.1;
                let py0 = choose|p: Coords2D| #[trigger]
                    before.to_set().contains(p) && p.y == old_box.1.0;
                let py1 = choose|p: Coords2D| #[trigger]
                    before.to_set().contains(p) && p.y == old_box.1.1;
                assert(after.to_set().contains(px0));
                assert(after.to_set().contains(px1));
                assert(after.to_set().contains(py0));
                assert(after.to_set().contains(py1));
            } else {
                assert(before.to_set() =~= Set::<Coords2D>::empty());
            }
        }
        i += 1;
    }
    assert(coords@.take(i as int) =~= coords@);
    ((min_x, max_x), (min_y, max_y))
}

/// The number of characters that a drawing needs for the coordinates from
/// `min` to `max`: two for each and three more.
pub fn output_gridsize(min: i32, max: i32) -> (size: usize)
    requires
        min <= max,
        (max - min) * 2 + 3 <= usize::MAX,
    ensures
        size == (max - min) * 2 + 3,
{
    ((max as i64 - min as i64) * 2 + 3) as usize
}

/// The cell at (`x`, `y`), where these are coordinates of the grid and a cell
/// is known there.
fn lookup(grid: &CellGrid, x: i64, y: i64) -> (cell: Option<&Cell>)
    ensures
        match cell {
            Some(c) => cell_at(grid@, x as int, y as int) == Some(c@),
            None => cell_at(grid@, x as int, y as int) is None,
        },
{
    if x < i32::MIN as i64 || x > i32::MAX as i64 || y < i32::MIN as i64 || y > i32::MAX as i64 {
        None
    } else {
        grid.get(&Coords2D { x: x as i32, y: y as i32 })
    }
}

fn top_glyph_at(grid: &CellGrid, x: i64, y: i64) -> (glyph: &'static str)
    requires
        i32::MIN <= x <= i32::MAX + 1,
        i32::MIN <= y <= i32::MAX + 1,
    ensures
        glyph@ == top_glyph(grid@, x as int, y as int),
{
    match lookup(grid, x, y) {
        Some(cell) => if cell.walls().north {
            NORTH_WALL
        } else {
            NORTH_WEST_CORNER
        },
        None => match lookup(grid, x, y - 1) {
            Some(north) => if north.walls().south {
                NORTH_WALL
            } else {
                NORTH_WEST_CORNER
            },
            None => {
                let has_north_west = lookup(grid, x - 1, y - 1).is_some();
                let has_west = lookup(grid, x - 1, y).is_some();
                if has_north_west || has_west {
                    NORTH_WEST_CORNER
                } else {
                    "  "
                }
            },
        },
    }
}

fn push_side_glyph(line: &mut String, grid: &CellGrid, bot: &Option<Coords2D>, x: i64, y: i64)
    requires
        i32::MIN <= x <= i32::MAX + 1,
        i32::MIN <= y <= i32::MAX + 1,
    ensures
        final(line)@ == old(line)@ + side_glyph(grid@, *bot, x as int, y as int),
{
    match lookup(grid, x, y) {
        Some(cell) => {
            if cell.walls().west {
                line.append(WEST_WALL);
            } else {
                line.append(" ");
            }
            let here = match bot {
                Some(b) => b.x as i64 == x && b.y as i64 == y,
                None => false,
            };
            if here {
                line.append(ROBOT_SPRITE);
            } else {
                line.append(" ");
            }
            assert(line@ =~= old(line)@ + side_glyph(grid@, *bot, x as int, y as int));
        },
        None => {
            match lookup(grid, x - 1, y) {
                Some(west) => {
                    if west.walls().east {
                        line.append(WEST_WALL);
                        line.append(" ");
                    } else {
                        line.append("  ");
                    }
                },
                None => {
                    line.append("  ");
                },
            }
            assert(line@ =~= old(line)@ + side_glyph(grid@, *bot, x as int, y as int));
        },
    }
}

/// Draws the grid, with the bot where `botlocation` says: see `drawing`.
pub fn draw_warehouse(grid: &CellGrid, botlocation: Option<Coords2D>) -> (s: String)
    ensures
        s@ == drawing(grid@, botlocation),
        grid@.dom() == Set::<Coords2D>::empty() ==> s@ == "\n"@,
{
    let mut s = String::new();
    s.append("\n");
    assert(s@ =~= "\n"@);
    if grid.is_empty() {
        assert(grid@.dom() =~= Set::<Coords2D>::empty());
        return s;
    }
    let keys = grid.keys();
    let bounds = min_max_xy(&keys);
    let x_min = bounds.0.0;
    let x_max = bounds.0.1;
    let y_min = bounds.1.0;
    let y_max = bounds.1.1;
    let ghost m = grid@;
    proof {
        assert(m.dom() != Set::<Coords2D>::empty()) by {
            if m.dom() == Set::<Coords2D>::empty() {
                assert(m =~= Map::<Coords2D, CellView>::empty());
            }
        }
        grid.lemma_finite();
        assert(keys@.len() > 0) by {
            if keys@.len() == 0 {
                assert(keys@.to_set() =~= Set::<Coords2D>::empty());
            }
        }
        lemma_bounding_box_unique(m.dom(), bounds);
    }
    let mut y: i64 = y_min as i64;
    assert(s@ =~= "\n"@ + rows(m, botlocation, x_min as int, x_max + 1, y_min as int, y - 1));
    while y <= y_max as i64 + 1
        invariant
            m == grid@,
            x_min <= x_max,
            y_min <= y <= y_max + 2,
            s@ == "\n"@ + rows(m, botlocation, x_min as int, x_max + 1, y_min as int, y - 1),
        decreases y_max + 2 - y,
    {
        let mut top_wall = String::new();
        let mut side_walls = String::new();
        let mut x: i64 = x_min as i64;
        while x <= x_max as i64 + 1
            invariant
                m == grid@,
                y_min <= y <= y_max + 1,
                x_min <= x <= x_max + 2,
                top_wall@ == top_line(m, x_min as int, x - 1, y as int),
                side_walls@ == side_line(m, botlocation, x_min as int, x - 1, y as int),
            decreases x_max + 2 - x,
        {
            top_wall.append(top_glyph_at(grid, x, y));
            push_side_glyph(&mut side_walls, grid, &botlocation, x, y);
            x += 1;
        }
        top_wall.append("\n");
        side_walls.append("\n");
        s.append(top_wall.as_str());
        s.append(side_walls.as_str());
        assert(s@ =~= "\n"@ + rows(m, botlocation, x_min as int, x_max + 1, y_min as int, y as int));
        y += 1;
    }
    s
}

} // verus!
