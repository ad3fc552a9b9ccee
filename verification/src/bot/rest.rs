//! The bot behind a REST service: the addresses to call and what the answers
//! mean. Sending the requests is left to the caller.

pub use crate::bot::FarScanResult;
use crate::cell::{Cell, CellView};
pub use crate::cell::Walls;
use crate::coords::Coords2D;
use crate::direction::{direction_to_literal, Direction};
use crate::error::Error;
use vstd::prelude::*;

verus! {

/// What the service tells of the cell in which the bot stands.
#[derive(Debug)]
pub struct CellInfo {
    pub shelf_inventory: Vec<String>,
    pub walls: Walls,
}

/// The answer of the service to a near scan.
#[derive(Debug)]
pub struct ScanNearResponse {
    pub field_info: CellInfo,
}

/// What the service tells of the distances to the nearest walls.
#[derive(Debug, Clone, Copy)]
pub struct FarScanInfo {
    pub north: i32,
    pub east: i32,
    pub west: i32,
    pub south: i32,
}

/// The answer of the service to a far scan.
#[derive(Debug, Clone, Copy)]
pub struct ScanFarResponse {
    pub scan_info: FarScanInfo,
}

/// A bot that is driven through a REST service.
pub struct RestBot {
    location: Coords2D,
    pub bot: String,
    base_url: String,
}

/// What is known of a bot: where it is, its name, and where its service is.
pub struct RestBotView {
    pub location: Coords2D,
    pub bot: Seq<char>,
    pub base_url: Seq<char>,
}

impl View for RestBot {
    type V = RestBotView;

    closed spec fn view(&self) -> RestBotView {
        RestBotView { location: self.location, bot: self.bot@, base_url: self.base_url@ }
    }
}

/// The views of the given goods.
pub open spec fn labels(goods: Seq<String>) -> Seq<Seq<char>> {
    Seq::new(goods.len(), |i: int| goods[i]@)
}

/// The walls that a cell takes from a scan that saw `seen`: all of them, but
/// for the one to the south where the scan saw a wall on every side.
pub open spec fn scanned_walls(seen: Walls) -> Walls {
    if seen.count() == 4 {
        Walls { south: false, ..seen }
    } else {
        seen
    }
}

/// The cell after the goods have been offered to its shelf one after the
/// other; a good that the shelf refuses is left out.
pub open spec fn stocked(cell: CellView, goods: Seq<Seq<char>>) -> CellView
    decreases goods.len(),
{
    if goods.len() == 0 {
        cell
    } else {
        stocked(cell, goods.drop_last()).with_good(goods.last())
    }
}

/// The cell that a near scan describes.
pub open spec fn scanned_cell(walls: Walls, goods: Seq<Seq<char>>) -> CellView {
    let blank = CellView::blank(Coords2D { x: 0, y: 0 }, Seq::empty());
    stocked(CellView { walls: scanned_walls(walls), ..blank }, goods)
}

/// What an answer to a request to move means: status 200 that the bot has
/// moved, 404 that there is no such bot, 405 that a wall is in the way; any
/// other status, or no answer at all, is a failure of the service.
pub open spec fn move_outcome(status: Option<u16>) -> Result<(), Error> {
    match status {
        Some(code) => if code == 200 {
            Ok(())
        } else if code == 404 {
            Err(Error::InvalidBot)
        } else if code == 405 {
            Err(Error::HitWall)
        } else {
            Err(Error::ClientError)
        },
        None => Err(Error::ClientError),
    }
}

/// What an answer to a scan or a reset means, the body left aside: status
/// 200 that it was done, 404 that there is no such bot; any other status, or
/// no answer at all, is a failure of the service.
pub open spec fn request_outcome(status: Option<u16>) -> Result<(), Error> {
    match status {
        Some(code) => if code == 200 {
            Ok(())
        } else if code == 404 {
            Err(Error::InvalidBot)
        } else {
            Err(Error::ClientError)
        },
        None => Err(Error::ClientError),
    }
}

/// The cell that a near scan describes: its walls are those that the scan
/// saw, and its shelf holds the goods that the scan saw, as far as a shelf
/// takes them.
pub fn scan_near_to_cell(ci: CellInfo) -> (cell: Cell)
    ensures
        cell@ == scanned_cell(ci.walls, labels(ci.shelf_inventory@)),
        cell@.valid(),
{
    let mut c = Cell::default();
    let walls = ci.walls;
    if walls.east {
        let _shape = c.add_wall(Direction::EAST);
    }
    if walls.north {
        let _shape = c.add_wall(Direction::NORTH);
    }
    if walls.west {
        let _shape = c.add_wall(Direction::WEST);
    }
    if walls.south {
        let _shape = c.add_wall(Direction::SOUTH);
    }
    let ghost bare = c@;
    let ghost goods = labels(ci.shelf_inventory@);
    assert(bare == CellView {
        walls: scanned_walls(walls),
        ..CellView::blank(Coords2D { x: 0, y: 0 }, Seq::empty())
    });
    let mut i: usize = 0;
    assert(goods.take(0) =~= Seq::<Seq<char>>::empty());
    while i < ci.shelf_inventory.len()
        invariant
            0 <= i <= ci.shelf_inventory.len(),
            goods == labels(ci.shelf_inventory@),
            c@ == stocked(bare, goods.take(i as int)),
            c@.valid(),
        decreases ci.shelf_inventory.len() - i,
    {
        let item = ci.shelf_inventory[i].clone();
        assert(goods.take(i + 1).drop_last() =~= goods.take(i as int));
        assert(goods.take(i + 1).last() == item@);
        let _count = c.put_good_on_shelf(item);
        i += 1;
    }
    assert(goods.take(i as int) =~= goods);
    c
}

impl RestBot {
    /// A bot of the given name at the origin, served at `base_url`.
    pub fn new(bot: String, base_url: String) -> (r: Self)
        ensures
            r@ == (RestBotView { location: Coords2D { x: 0, y: 0 }, bot: bot@, base_url: base_url@ }),
    {
        Self { bot, location: Coords2D { x: 0, y: 0 }, base_url }
    }

    /// A bot of the given name that is known to stand at `location`, served
    /// at `base_url`.
    pub fn located(bot: String, base_url: String, location: Coords2D) -> (r: Self)
        ensures
            r@ == (RestBotView { location, bot: bot@, base_url: base_url@ }),
    {
        Self { bot, location, base_url }
    }

    /// The name of the bot.
    pub fn name(&self) -> (name: &str)
        ensures
            name@ == self@.bot,
    {
        self.bot.as_str()
    }

    /// The address at which the bot is served.
    pub fn base_url(&self) -> (url: &str)
        ensures
            url@ == self@.base_url,
    {
        self.base_url.as_str()
    }

    /// Where the bot is, as far as its moves tell.
    pub fn locate(&self) -> (pos: Coords2D)
        ensures
            pos == self@.location,
    {
        self.location
    }

    /// The address that asks the bot to move one step.
    pub fn move_url(&self, direction: &Direction) -> (url: String)
        ensures
            url@ == self@.base_url + "/"@ + self@.bot + "/move/"@ + direction.name(),
    {
        let mut url = self.base_url.clone();
        url.append("/");
        url.append(self.bot.as_str());
        url.append("/move/");
        url.append(direction_to_literal(direction));
        url
    }

    /// The address that asks the bot for a near scan.
    pub fn scan_near_url(&self) -> (url: String)
        ensures
            url@ == self@.base_url + "/"@ + self@.bot + "/scan/near"@,
    {
        let mut url = self.base_url.clone();
        url.append("/");
        url.append(self.bot.as_str());
        url.append("/scan/near");
        url
    }

    /// The address that asks the bot for a far scan.
    pub fn scan_far_url(&self) -> (url: String)
        ensures
            url@ == self@.base_url + "/"@ + self@.bot + "/scan/far"@,
    {
        let mut url = self.base_url.clone();
        url.append("/");
        url.append(self.bot.as_str());
        url.append("/scan/far");
        url
    }

    /// The address that puts the bot back to where it started.
    pub fn reset_url(&self) -> (url: String)
        ensures
            url@ == "http://springschool-lb-54580289.eu-central-1.elb.amazonaws.com/api/james/"@
                + "/"@ + self@.bot + "/reset"@,
    {
        let mut url = String::new();
        url.append("http://springschool-lb-54580289.eu-central-1.elb.amazonaws.com/api/james/");
        url.append("/");
        url.append(self.bot.as_str());
        url.append("/reset");
        assert(url@
            =~= "http://springschool-lb-54580289.eu-central-1.elb.amazonaws.com/api/james/"@
            + "/"@ + self@.bot + "/reset"@);
        url
    }

    /// Takes note of the answer to a request to move in the given direction:
    /// the bot is one step further where the service says so, and where it
    /// was in every other case. `status` is the status of the answer, `None`
    /// where there was none.
    pub fn navigate(&mut self, direction: Direction, status: Option<u16>) -> (r: Result<(), Error>)
        requires
            status == Some(200u16) ==> old(self)@.location.can_step(direction, 1),
        ensures
            r == move_outcome(status),
            final(self)@ == if r is Ok {
                RestBotView { location: old(self)@.location.stepped(direction, 1), ..old(self)@ }
            } else {
                old(self)@
            },
    {
        match status {
            Some(code) => {
                if code == 200 {
                    self.location = self.location.neighbor_coords(&direction);
                    Ok(())
                } else if code == 404 {
                    Err(Error::InvalidBot)
                } else if code == 405 {
                    Err(Error::HitWall)
                } else {
                    Err(Error::ClientError)
                }
            },
            None => Err(Error::ClientError),
        }
    }

    /// What the answer to a request for a near scan means. `status` is the
    /// status of the answer, `None` where there was none; `body` is what the
    /// answer held, `None` where that could not be read.
    pub fn scan_near(status: Option<u16>, body: Option<ScanNearResponse>) -> (r: Result<Cell, Error>)
        ensures
            match r {
                Ok(cell) => request_outcome(status) is Ok && body is Some && cell@ == scanned_cell(
                    body->Some_0.field_info.walls,
                    labels(body->Some_0.field_info.shelf_inventory@),
                ),
                Err(e) => match request_outcome(status) {
                    Ok(_) => body is None && e == Error::ScanFailed,
                    Err(failure) => e == failure,
                },
            },
    {
        match status {
            Some(code) => {
                if code == 200 {
                    match body {
                        Some(snr) => Ok(scan_near_to_cell(snr.field_info)),
                        None => Err(Error::ScanFailed),
                    }
                } else if code == 404 {
                    Err(Error::InvalidBot)
                } else {
                    Err(Error::ClientError)
                }
            },
            None => Err(Error::ClientError),
        }
    }

    /// What the answer to a request for a far scan means. `status` is the
    /// status of the answer, `None` where there was none; `body` is what the
    /// answer held, `None` where that could not be read.
    pub fn scan_far(status: Option<u16>, body: Option<ScanFarResponse>) -> (r: Result<
        FarScanResult,
        Error,
    >)
        ensures
            match r {
                Ok(scan) => request_outcome(status) is Ok && body is Some && scan@ == far_scan_of(
                    body->Some_0.scan_info,
                ),
                Err(e) => match request_outcome(status) {
                    Ok(_) => body is None && e == Error::ScanFailed,
                    Err(failure) => e == failure,
                },
            },
    {
        match status {
            Some(code) => {
                if code == 200 {
                    match body {
                        Some(sfr) => {
                            let mut far_scan_result = FarScanResult::new();
                            far_scan_result.insert(Direction::NORTH, sfr.scan_info.north);
                            far_scan_result.insert(Direction::EAST, sfr.scan_info.east);
                            far_scan_result.insert(Direction::SOUTH, sfr.scan_info.south);
                            far_scan_result.insert(Direction::WEST, sfr.scan_info.west);
                            assert(far_scan_result@ =~= far_scan_of(sfr.scan_info));
                            Ok(far_scan_result)
                        },
                        None => Err(Error::ScanFailed),
                    }
                } else if code == 404 {
                    Err(Error::InvalidBot)
                } else {
                    Err(Error::ClientError)
                }
            },
            None => Err(Error::ClientError),
        }
    }

    /// Takes note of the answer to a request to reset the bot: the bot is
    /// back at the origin where the service says so, and where it was in
    /// every other case.
    pub fn reset(&mut self, status: Option<u16>) -> (r: Result<(), Error>)
        ensures
            r == request_outcome(status),
            final(self)@ == if r is Ok {
                RestBotView { location: Coords2D { x: 0, y: 0 }, ..old(self)@ }
            } else {
                old(self)@
            },
    {
        match status {
            Some(code) => {
                if code == 200 {
                    self.location = Coords2D { x: 0, y: 0 };
                    Ok(())
                } else if code == 404 {
                    Err(Error::InvalidBot)
                } else {
                    Err(Error::ClientError)
                }
            },
            None => Err(Error::ClientError),
        }
    }
}

/// The far scan that holds the four distances of an answer.
pub open spec fn far_scan_of(info: FarScanInfo) -> Map<Direction, i32> {
    Map::new(
        |dir: Direction| true,
        |dir: Direction|
            match dir {
                Direction::NORTH => info.north,
                Direction::EAST => info.east,
                Direction::SOUTH => info.south,
                Direction::WEST => info.west,
            },
    )
}

impl Default for RestBot {
    fn default() -> (r: Self)
        ensures
            r@ == (RestBotView {
                location: Coords2D { x: 0, y: 0 },
                bot: "john"@,
                base_url: "http://springschool-lb-54580289.eu-central-1.elb.amazonaws.com/api/bot"@,
            }),
    {
        Self::new(
            String::from_str("john"),
            String::from_str(
                "http://springschool-lb-54580289.eu-central-1.elb.amazonaws.com/api/bot",
            ),
        )
    }
}

} // verus!
