//! Driving a bot through the warehouse and merging what it observes into the
//! map.

use crate::bot::{Commands, FarScanResult};
use crate::cell::{Cell, CellView};
use crate::coords::Coords2D;
use crate::direction::Direction;
use crate::error::Error;
use crate::warehouse::{ray, upsert, Warehouse};
use vstd::prelude::*;

verus! {

/// Whether a bot at `pos` may be sent one step in direction `dir`: not
/// against a wall of its cell (`HitWall`), and not from a place of which the
/// map knows nothing (`InvalidBot`).
pub open spec fn move_verdict(m: Map<Coords2D, CellView>, pos: Coords2D, dir: Direction) -> Result<
    (),
    Error,
> {
    if !m.contains_key(pos) {
        Err(Error::InvalidBot)
    } else if m[pos].walls.has(dir) {
        Err(Error::HitWall)
    } else {
        Ok(())
    }
}

/// The distance that a far scan gives for a direction; 0 where it gives none.
pub open spec fn scanned_distance(scan: Map<Direction, i32>, dir: Direction) -> int {
    if scan.contains_key(dir) {
        scan[dir] as int
    } else {
        0
    }
}

/// Whether the distance that a far scan gives for a direction can be taken
/// from `pos`: it is not negative and does not lead off the grid.
pub open spec fn distance_fits(scan: Map<Direction, i32>, pos: Coords2D, dir: Direction) -> bool {
    scan.contains_key(dir) ==> scan[dir] >= 0 && pos.can_step(dir, scan[dir] as int)
}

/// Whether every distance of a far scan can be taken from `pos`.
pub open spec fn scan_fits(scan: Map<Direction, i32>, pos: Coords2D) -> bool {
    &&& distance_fits(scan, pos, Direction::NORTH)
    &&& distance_fits(scan, pos, Direction::EAST)
    &&& distance_fits(scan, pos, Direction::SOUTH)
    &&& distance_fits(scan, pos, Direction::WEST)
}

/// The map after a far scan from `pos`: the rays to the north, east, south
/// and west, filled in one after the other.
pub open spec fn far_scan(m: Map<Coords2D, CellView>, scan: Map<Direction, i32>, pos: Coords2D) -> Map<
    Coords2D,
    CellView,
> {
    let north = ray(m, pos, Direction::NORTH, scanned_distance(scan, Direction::NORTH));
    let east = ray(north, pos, Direction::EAST, scanned_distance(scan, Direction::EAST));
    let south = ray(east, pos, Direction::SOUTH, scanned_distance(scan, Direction::SOUTH));
    ray(south, pos, Direction::WEST, scanned_distance(scan, Direction::WEST))
}

/// Decides whether a bot at `pos` may be sent one step in direction `dir`:
/// see `move_verdict`.
pub fn check_move(warehouse: &Warehouse, pos: &Coords2D, dir: &Direction) -> (r: Result<(), Error>)
    ensures
        r == move_verdict(warehouse@, *pos, *dir),
{
    match warehouse.get_cell(pos) {
        Some(c) => {
            if c.has_wall(dir) {
                Err(Error::HitWall)
            } else {
                Ok(())
            }
        },
        None => Err(Error::InvalidBot),
    }
}

/// Sends the bot one step in direction `dir`, unless the map shows a wall
/// there. The bot is asked where it is. Where the map refuses the move from
/// that place, as `move_verdict` says, the refusal is the result and the bot
/// is not sent anywhere; else the result is what the bot answers to the
/// command. So a move is made only where some known cell allows it, and on a
/// map that allows the move nowhere the result is one of its refusals.
pub fn move_bot_in_warehouse<B: Commands>(bot: &mut B, warehouse: &Warehouse, dir: Direction) -> (r:
    Result<(), Error>)
    ensures
        exists|pos: Coords2D| #[trigger] refusal_stands(warehouse@, pos, dir, r),
        r is Ok ==> exists|pos: Coords2D| #[trigger] move_verdict(warehouse@, pos, dir) is Ok,
{
    let pos = bot.locate();
    if let Err(e) = check_move(warehouse, &pos, &dir) {
        assert(refusal_stands(warehouse@, pos, dir, Err(e)));
        return Err(e);
    }
    assert(move_verdict(warehouse@, pos, dir) is Ok);
    let r = match dir {
        Direction::NORTH => bot.go_north(),
        Direction::EAST => bot.go_east(),
        Direction::SOUTH => bot.go_south(),
        Direction::WEST => bot.go_west(),
    };
    assert(refusal_stands(warehouse@, pos, dir, r));
    r
}

/// Moves the bot one step and merges what it then sees, far and near, into
/// the map. Where the map refuses the move from the place of the bot, the
/// refusal is the result and the map stays as it was. Whatever the bot
/// answers, no cell that was known is forgotten. The map is changed only by
/// whole scans: on success by a far scan and then a near scan; on failure by
/// nothing, or by a far scan alone where the near scan failed after it.
pub fn explore_warehouse_manually<B: Commands>(
    bot: &mut B,
    warehouse: &mut Warehouse,
    direction: Direction,
) -> (r: Result<(), Error>)
    ensures
        exists|start: Coords2D| #[trigger]
            refusal_keeps_map(old(warehouse)@, start, direction, r, final(warehouse)@),
        forall|p: Coords2D|
            old(warehouse)@.contains_key(p) ==> #[trigger] final(warehouse)@.contains_key(p),
        r is Ok ==> exists|scan: Map<Direction, i32>, pos: Coords2D, at: Coords2D, cell: CellView|
            scan_fits(scan, pos) && #[trigger] upsert(
                far_scan(old(warehouse)@, scan, pos),
                at,
                cell,
            ) == final(warehouse)@,
        r is Err ==> final(warehouse)@ == old(warehouse)@ || exists|
            scan: Map<Direction, i32>,
            pos: Coords2D,
        |
            scan_fits(scan, pos) && #[trigger] far_scan(old(warehouse)@, scan, pos)
                == final(warehouse)@,
{
    let moved = move_bot_in_warehouse(bot, warehouse, direction);
    let ghost start = choose|pos: Coords2D| #[trigger]
        refusal_stands(old(warehouse)@, pos, direction, moved);
    if let Err(e) = moved {
        assert(refusal_keeps_map(old(warehouse)@, start, direction, Err(e), warehouse@));
        return Err(e);
    }
    assert(move_verdict(old(warehouse)@, start, direction) is Ok);
    let r = match bot.scan_far() {
        Err(e) => Err(e),
        Ok(farscan) => {
            let pos = bot.locate();
            match update_warehouse_from_scan_far(warehouse, farscan, &pos) {
                Ok(_) => {
                    let ghost scanned = warehouse@;
                    assert(far_scan(old(warehouse)@, farscan@, pos) == scanned);
                    let r = update_warehouse_at_bot_postion(bot, warehouse);
                    proof {
                        if r is Ok {
                            let (at, cell) = choose|at: Coords2D, cell: CellView| #[trigger]
                                upsert(scanned, at, cell) == warehouse@;
                            assert(upsert(far_scan(old(warehouse)@, farscan@, pos), at, cell)
                                == warehouse@);
                        }
                    }
                    r
                },
                Err(e) => Err(e),
            }
        },
    };
    assert(refusal_keeps_map(old(warehouse)@, start, direction, r, warehouse@));
    r
}

/// Merges an answer to a near scan into the map: a cell is recorded at `pos`
/// as an observation, a failure is handed on and leaves the map as it was.
pub fn apply_near_scan(warehouse: &mut Warehouse, pos: Coords2D, scan: Result<Cell, Error>) -> (r:
    Result<(), Error>)
    ensures
        match scan {
            Ok(cell) => r is Ok && final(warehouse)@ == upsert(old(warehouse)@, pos, cell@),
            Err(e) => r == Err::<(), Error>(e) && final(warehouse)@ == old(warehouse)@,
        },
{
    match scan {
        Ok(c) => {
            warehouse.insert_or_update_cell(pos, c);
            Ok(())
        },
        Err(e) => Err(e),
    }
}

/// Asks the bot for a near scan and records the cell at the place where the
/// bot says it is. Where the scan fails the map stays as it was.
pub fn update_warehouse_at_bot_postion<B: Commands>(bot: &mut B, warehouse: &mut Warehouse) -> (r:
    Result<(), Error>)
    ensures
        r is Err ==> final(warehouse)@ == old(warehouse)@,
        r is Ok ==> exists|pos: Coords2D, cell: CellView| #[trigger]
            upsert(old(warehouse)@, pos, cell) == final(warehouse)@,
{
    match bot.scan_near() {
        Ok(c) => {
            let pos = bot.locate();
            let ghost seen = c@;
            let r = apply_near_scan(warehouse, pos, Ok(c));
            assert(upsert(old(warehouse)@, pos, seen) == warehouse@);
            r
        },
        Err(e) => Err(e),
    }
}

/// Decides whether the distance that a far scan gives for `dir` can be taken
/// from `pos`.
fn check_distance(scan: &FarScanResult, pos: &Coords2D, dir: Direction) -> (fits: bool)
    ensures
        fits == distance_fits(scan@, *pos, dir),
{
    match scan.get(&dir) {
        None => true,
        Some(n) => {
            let n: i64 = *n as i64;
            if n < 0 {
                false
            } else {
                match dir {
                    Direction::NORTH => pos.y as i64 - n >= i32::MIN as i64,
                    Direction::EAST => pos.x as i64 + n <= i32::MAX as i64,
                    Direction::SOUTH => pos.y as i64 + n <= i32::MAX as i64,
                    Direction::WEST => pos.x as i64 - n >= i32::MIN as i64,
                }
            }
        },
    }
}

/// Fills in the ray of a far scan in one direction.
fn scan_ray(warehouse: &mut Warehouse, scan: &FarScanResult, pos: &Coords2D, dir: Direction)
    requires
        distance_fits(scan@, *pos, dir),
    ensures
        final(warehouse)@ == ray(old(warehouse)@, *pos, dir, scanned_distance(scan@, dir)),
{
    match scan.get(&dir) {
        Some(n) => {
            let _done = warehouse.reconstruct_ray(pos, dir, *n);
        },
        None => {
            assert(warehouse@ =~= ray(old(warehouse)@, *pos, dir, 0));
        },
    }
}

/// Merges the answer to a far scan from `botcoords` into the map: see
/// `far_scan`. A scan with a distance that is negative or leads off the grid
/// is refused with `InvalidArgument` and leaves the map as it was.
pub fn update_warehouse_from_scan_far(
    warehouse: &mut Warehouse,
    scaninfo: FarScanResult,
    botcoords: &Coords2D,
) -> (r: Result<(), Error>)
    ensures
        match r {
            Ok(_) => scan_fits(scaninfo@, *botcoords) && final(warehouse)@ == far_scan(
                old(warehouse)@,
                scaninfo@,
                *botcoords,
            ),
            Err(e) => e == Error::InvalidArgument && !scan_fits(scaninfo@, *botcoords)
                && final(warehouse)@ == old(warehouse)@,
        },
        forall|p: Coords2D|
            old(warehouse)@.contains_key(p) ==> final(warehouse)@.contains_key(p)
                && #[trigger] final(warehouse)@[p] == old(warehouse)@[p],
{
    let fits = check_distance(&scaninfo, botcoords, Direction::NORTH) && check_distance(
        &scaninfo,
        botcoords,
        Direction::EAST,
    ) && check_distance(&scaninfo, botcoords, Direction::SOUTH) && check_distance(
        &scaninfo,
        botcoords,
        Direction::WEST,
    );
    if !fits {
        return Err(Error::InvalidArgument);
    }
    scan_ray(warehouse, &scaninfo, botcoords, Direction::NORTH);
    scan_ray(warehouse, &scaninfo, botcoords, Direction::EAST);
    scan_ray(warehouse, &scaninfo, botcoords, Direction::SOUTH);
    scan_ray(warehouse, &scaninfo, botcoords, Direction::WEST);
    Ok(())
}

/// Whether `r` can be the result of sending a bot that stands at `pos` one
/// step in direction `dir`: where the map refuses the move from there, `r` is
/// that refusal; where it allows the move, `r` is the answer of the bot,
/// whatever that is.
pub open spec fn refusal_stands(
    m: Map<Coords2D, CellView>,
    pos: Coords2D,
    dir: Direction,
    r: Result<(), Error>,
) -> bool {
    match move_verdict(m, pos, dir) {
        Err(e) => r == Err::<(), Error>(e),
        Ok(_) => true,
    }
}

/// As `refusal_stands`, for a move after which the map is drawn up anew:
/// where the map `before` refuses the move, the map `after` is the same.
pub open spec fn refusal_keeps_map(
    before: Map<Coords2D, CellView>,
    pos: Coords2D,
    dir: Direction,
    r: Result<(), Error>,
    after: Map<Coords2D, CellView>,
) -> bool {
    match move_verdict(before, pos, dir) {
        Err(e) => r == Err::<(), Error>(e) && after == before,
        Ok(_) => true,
    }
}

} // verus!
