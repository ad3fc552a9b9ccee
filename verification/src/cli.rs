//! The commands of the command line, and what each of them does to the bot
//! and the map.

use crate::bot::Commands;
use crate::cell::CellView;
use crate::cliplotter::{draw_warehouse, drawing};
use crate::coords::Coords2D;
use crate::direction::Direction;
use crate::error::Error;
use crate::exploration::{
    explore_warehouse_manually, update_warehouse_at_bot_postion, update_warehouse_from_scan_far,
};
use crate::text::{chars_of, decimal, push_decimal, range_matches};
use crate::warehouse::{capped, total_capacity, total_occupied, upsert, Warehouse};
use vstd::prelude::*;

verus! {

pub const CLI_STATE_FILE_NAME: &'static str = "cli_state.json";

/// Why a command gave no answer.
#[derive(Debug)]
pub enum CliError {
    /// The command was tried and failed; the text says why.
    CommandFailed(String),
    /// There is no such command.
    CommandUnknown,
    /// The command is known but cannot be carried out here.
    CommandNotImplemented,
}

/// The commands of the command line.
#[derive(Debug, Clone, Copy, PartialEq, Eq, Structural)]
pub enum Command {
    North,
    East,
    South,
    West,
    SaveState,
    LoadState,
    ShowWarehouse,
    InspectWarehouse,
    ResetWarehouse,
    Near,
    Locate,
    Far,
}

/// Whether a character is white space: one of the characters that Unicode
/// lists with the property `White_Space`.
pub open spec fn is_whitespace(c: char) -> bool {
    let code = c as u32;
    ||| 0x09 <= code <= 0x0d
    ||| code == 0x20
    ||| code == 0x85
    ||| code == 0xa0
    ||| code == 0x1680
    ||| 0x2000 <= code <= 0x200a
    ||| code == 0x2028
    ||| code == 0x2029
    ||| code == 0x202f
    ||| code == 0x205f
    ||| code == 0x3000
}

/// The lower-case form of an ASCII capital letter; any other character as it
/// is.
pub open spec fn lower(c: char) -> char {
    if 'A' <= c <= 'Z' {
        ((c as u32) + 32) as char
    } else {
        c
    }
}

/// The text with every ASCII capital letter in lower case.
pub open spec fn lowered(s: Seq<char>) -> Seq<char> {
    Seq::new(s.len(), |i: int| lower(s[i]))
}

/// The text without the white space at its start.
pub open spec fn trim_start(s: Seq<char>) -> Seq<char>
    decreases s.len(),
{
    if s.len() > 0 && is_whitespace(s[0]) {
        trim_start(s.drop_first())
    } else {
        s
    }
}

/// The text without the white space at its end.
pub open spec fn trim_end(s: Seq<char>) -> Seq<char>
    decreases s.len(),
{
    if s.len() > 0 && is_whitespace(s.last()) {
        trim_end(s.drop_last())
    } else {
        s
    }
}

/// The text without the white space at its start and its end.
pub open spec fn trimmed(s: Seq<char>) -> Seq<char> {
    trim_end(trim_start(s))
}

impl Command {
    /// The command that a word stands for, if it is one.
    pub open spec fn named(word: Seq<char>) -> Option<Command> {
        if word == "north"@ {
            Some(Command::North)
        } else if word == "east"@ {
            Some(Command::East)
        } else if word == "south"@ {
            Some(Command::South)
        } else if word == "west"@ {
            Some(Command::West)
        } else if word == "save_state"@ {
            Some(Command::SaveState)
        } else if word == "load_state"@ {
            Some(Command::LoadState)
        } else if word == "show_warehouse"@ {
            Some(Command::ShowWarehouse)
        } else if word == "inspect_warehouse"@ {
            Some(Command::InspectWarehouse)
        } else if word == "reset_warehouse"@ {
            Some(Command::ResetWarehouse)
        } else if word == "near"@ {
            Some(Command::Near)
        } else if word == "locate"@ {
            Some(Command::Locate)
        } else if word == "far"@ {
            Some(Command::Far)
        } else {
            None
        }
    }

    /// The direction in which a command sends the bot, if it sends it
    /// anywhere.
    pub open spec fn heading(self) -> Option<Direction> {
        match self {
            Command::North => Some(Direction::NORTH),
            Command::East => Some(Direction::EAST),
            Command::South => Some(Direction::SOUTH),
            Command::West => Some(Direction::WEST),
            _ => None,
        }
    }
}

/// The command that a line of input stands for: capital letters count as
/// small ones, and white space around the word is left aside.
pub open spec fn command_of(line: Seq<char>) -> Option<Command> {
    Command::named(trimmed(lowered(line)))
}

/// What is said of a failure of the bot.
pub open spec fn error_message(err: Error) -> Seq<char> {
    match err {
        Error::HitWall => "Bot hit a wall"@,
        Error::StoreageFull => "Storage full"@,
        Error::ScanFailed => "Scan failed"@,
        Error::InvalidBot => "No such bot!"@,
        Error::InvalidDirection => "Invalid Direction"@,
        Error::InvalidArgument => "Invalid Argument"@,
        Error::ClientError => "Something is really bad - better abort"@,
    }
}

/// The line that sums up a map: the number of cells, the goods on all shelves
/// and the room on all shelves.
pub open spec fn info_text(m: Map<Coords2D, CellView>) -> Seq<char> {
    "#cells: "@ + decimal(m.dom().len()) + " storage: "@ + decimal(
        capped(total_occupied(m)) as nat,
    ) + "/"@ + decimal(capped(total_capacity(m)) as nat) + "\n"@
}

fn is_space(c: char) -> (r: bool)
    ensures
        r == is_whitespace(c),
{
    let code = c as u32;
    (0x09 <= code && code <= 0x0d) || code == 0x20 || code == 0x85 || code == 0xa0 || code == 0x1680
        || (0x2000 <= code && code <= 0x200a) || code == 0x2028 || code == 0x2029 || code
        == 0x202f || code == 0x205f || code == 0x3000
}

fn to_lower(c: char) -> (r: char)
    ensures
        r == lower(c),
{
    if 'A' <= c && c <= 'Z' {
        ((c as u8) + 32) as char
    } else {
        c
    }
}

/// Reads a command from a line of input: see `command_of`.
pub fn parse_command(cmd: &str) -> (command: Option<Command>)
    ensures
        command == command_of(cmd@),
{
    let raw = chars_of(cmd);
    let mut chars: Vec<char> = Vec::new();
    let mut k: usize = 0;
    while k < raw.len()
        invariant
            0 <= k <= raw.len(),
            chars@.len() == k,
            forall|i: int| 0 <= i < k ==> #[trigger] chars@[i] == lower(raw@[i]),
        decreases raw.len() - k,
    {
        chars.push(to_lower(raw[k]));
        k += 1;
    }
    assert(chars@ =~= lowered(cmd@));
    let mut from: usize = 0;
    assert(chars@.skip(0) =~= chars@);
    while from < chars.len() && is_space(chars[from])
        invariant
            0 <= from <= chars.len(),
            trim_start(chars@) == trim_start(chars@.skip(from as int)),
        decreases chars.len() - from,
    {
        assert(chars@.skip(from as int).drop_first() =~= chars@.skip(from + 1));
        from += 1;
    }
    assert(trim_start(chars@) == chars@.skip(from as int));
    let mut to: usize = chars.len();
    assert(chars@.subrange(from as int, to as int) =~= chars@.skip(from as int));
    while to > from && is_space(chars[to - 1])
        invariant
            from <= to <= chars.len(),
            trimmed(chars@) == trim_end(chars@.subrange(from as int, to as int)),
        decreases to - from,
    {
        assert(chars@.subrange(from as int, to as int).drop_last() =~= chars@.subrange(
            from as int,
            to - 1,
        ));
        to -= 1;
    }
    assert(trimmed(chars@) == chars@.subrange(from as int, to as int));
    if range_matches(&chars, from, to, "north") {
        Some(Command::North)
    } else if range_matches(&chars, from, to, "east") {
        Some(Command::East)
    } else if range_matches(&chars, from, to, "south") {
        Some(Command::South)
    } else if range_matches(&chars, from, to, "west") {
        Some(Command::West)
    } else if range_matches(&chars, from, to, "save_state") {
        Some(Command::SaveState)
    } else if range_matches(&chars, from, to, "load_state") {
        Some(Command::LoadState)
    } else if range_matches(&chars, from, to, "show_warehouse") {
        Some(Command::ShowWarehouse)
    } else if range_matches(&chars, from, to, "inspect_warehouse") {
        Some(Command::InspectWarehouse)
    } else if range_matches(&chars, from, to, "reset_warehouse") {
        Some(Command::ResetWarehouse)
    } else if range_matches(&chars, from, to, "near") {
        Some(Command::Near)
    } else if range_matches(&chars, from, to, "locate") {
        Some(Command::Locate)
    } else if range_matches(&chars, from, to, "far") {
        Some(Command::Far)
    } else {
        None
    }
}

/// Says what went wrong with the bot, as a failed command.
pub fn command_error_to_cli_error(err: Error) -> (failure: CliError)
    ensures
        failure matches CliError::CommandFailed(message) && message@ == error_message(err),
{
    let message = match err {
        Error::HitWall => "Bot hit a wall",
        Error::StoreageFull => "Storage full",
        Error::ScanFailed => "Scan failed",
        Error::InvalidBot => "No such bot!",
        Error::InvalidDirection => "Invalid Direction",
        Error::InvalidArgument => "Invalid Argument",
        Error::ClientError => "Something is really bad - better abort",
    };
    CliError::CommandFailed(String::from_str(message))
}

/// The answer of the command line to what the bot answered: `"ok"`, or what
/// went wrong.
pub fn botresult_to_cli(res: Result<(), Error>) -> (answer: Result<String, CliError>)
    ensures
        match res {
            Ok(_) => answer matches Ok(text) && text@ == "ok"@,
            Err(e) => answer matches Err(CliError::CommandFailed(message)) && message@
                == error_message(e),
        },
{
    match res {
        Ok(_) => Ok(String::from_str("ok")),
        Err(e) => Err(command_error_to_cli_error(e)),
    }
}

/// The command line: a bot and the map that is drawn up from what the bot
/// sees.
pub struct Cli<T: Commands> {
    executor: T,
    warehouse: Warehouse,
}

impl<T: Commands> Cli<T> {
    /// The map of the command line.
    pub closed spec fn map(&self) -> Map<Coords2D, CellView> {
        self.warehouse@
    }

    /// The bot of the command line.
    pub closed spec fn bot(&self) -> T {
        self.executor
    }

    /// A command line for the given bot, with a map on which nothing is
    /// known.
    pub fn new(ex: T) -> (cli: Self)
        ensures
            cli.map() == Map::<Coords2D, CellView>::empty(),
            cli.bot() == ex,
    {
        Cli { executor: ex, warehouse: Warehouse::new() }
    }

    /// The bot.
    pub fn executor(&self) -> (executor: &T)
        ensures
            *executor == self.bot(),
    {
        &self.executor
    }

    /// The map.
    pub fn warehouse(&self) -> (warehouse: &Warehouse)
        ensures
            warehouse@ == self.map(),
    {
        &self.warehouse
    }

    /// Puts another bot and another map in the place of the present ones,
    /// such as those that were kept from an earlier run.
    pub fn restore(&mut self, executor: T, warehouse: Warehouse)
        ensures
            final(self).map() == warehouse@,
            final(self).bot() == executor,
    {
        self.warehouse = warehouse;
        self.executor = executor;
    }

    /// Records the cell in which the bot stands when the program starts.
    /// Where the scan fails the map stays as it was.
    pub fn init_state(&mut self) -> (answer: Result<String, CliError>)
        ensures
            answer matches Err(failure) ==> failure is CommandFailed && final(self).map() == old(
                self,
            ).map(),
            answer matches Ok(text) ==> text@ == "ok"@ && exists|pos: Coords2D, cell: CellView|
                #[trigger] upsert(old(self).map(), pos, cell) == final(self).map(),
    {
        let done = update_warehouse_at_bot_postion(&mut self.executor, &mut self.warehouse);
        proof {
            if done is Ok {
                let (pos, cell) = choose|pos: Coords2D, cell: CellView| #[trigger]
                    upsert(old(self).warehouse@, pos, cell) == self.warehouse@;
                assert(upsert(old(self).map(), pos, cell) == self.map());
            }
        }
        botresult_to_cli(done)
    }

    /// Carries out the command that a line of input stands for: see
    /// `command_of` and `dispatch`. A line that stands for no command is
    /// answered with `CommandUnknown` and changes nothing.
    pub fn dispatch_command_for_string(&mut self, cmd: &str) -> (answer: Result<String, CliError>)
        ensures
            command_of(cmd@) is None ==> (answer matches Err(CliError::CommandUnknown)),
            command_of(cmd@) is None ==> final(self).map() == old(self).map(),
            command_of(cmd@) matches Some(command) ==> dispatched(
                command,
                old(self).map(),
                final(self).map(),
                answer,
            ),
    {
        match parse_command(cmd) {
            Some(command) => self.dispatch(command),
            None => Err(CliError::CommandUnknown),
        }
    }

    /// Carries out a command. What the bot answers decides most of the
    /// outcome; `dispatched` says what holds of it in any case.
    pub fn dispatch(&mut self, command: Command) -> (answer: Result<String, CliError>)
        ensures
            dispatched(command, old(self).map(), final(self).map(), answer),
    {
        match command {
            Command::North => self.explore(Direction::NORTH),
            Command::East => self.explore(Direction::EAST),
            Command::South => self.explore(Direction::SOUTH),
            Command::West => self.explore(Direction::WEST),
            Command::SaveState => Err(CliError::CommandNotImplemented),
            Command::LoadState => Err(CliError::CommandNotImplemented),
            Command::ShowWarehouse => self.show_warehouse(),
            Command::InspectWarehouse => Ok(self.warehouse_info()),
            Command::ResetWarehouse => {
                self.warehouse.reset();
                Ok(String::from_str("cleared warehouse"))
            },
            Command::Near => match self.executor.scan_near() {
                Ok(cx) => Ok(cx.to_string()),
                Err(e) => Err(command_error_to_cli_error(e)),
            },
            Command::Locate => Ok(self.executor.locate().to_string()),
            Command::Far => {
                match self.executor.scan_far() {
                    Ok(far_scan) => {
                        let info = far_scan.to_string();
                        let botlocation = self.executor.locate();
                        match update_warehouse_from_scan_far(
                            &mut self.warehouse,
                            far_scan,
                            &botlocation,
                        ) {
                            Ok(_) => Ok(info),
                            Err(e) => Err(command_error_to_cli_error(e)),
                        }
                    },
                    Err(e) => Err(command_error_to_cli_error(e)),
                }
            },
        }
    }

    /// Sends the bot one step, merges what it sees into the map and draws
    /// the map.
    fn explore(&mut self, direction: Direction) -> (answer: Result<String, CliError>)
        ensures
            forall|p: Coords2D|
                old(self).map().contains_key(p) ==> #[trigger] final(self).map().contains_key(p),
            answer matches Ok(text) ==> exists|bot: Coords2D| #[trigger]
                shown(final(self).map(), bot) == text@,
            answer matches Err(failure) ==> failure is CommandFailed,
    {
        match explore_warehouse_manually(&mut self.executor, &mut self.warehouse, direction) {
            Ok(_) => self.show_warehouse(),
            Err(e) => Err(command_error_to_cli_error(e)),
        }
    }

    /// The line that sums up the map: see `info_text`.
    pub fn warehouse_info(&self) -> (info: String)
        ensures
            info@ == info_text(self.map()),
    {
        let storage = self.warehouse.storage_capacity();
        let mut info = String::new();
        info.append("#cells: ");
        push_decimal(&mut info, self.warehouse.cells() as u64);
        info.append(" storage: ");
        push_decimal(&mut info, storage.0 as u64);
        info.append("/");
        push_decimal(&mut info, storage.1 as u64);
        info.append("\n");
        assert(info@ =~= info_text(self.map()));
        info
    }

    /// The line that sums up the map and the drawing of the map, with the
    /// bot where it says it is.
    pub fn show_warehouse(&mut self) -> (answer: Result<String, CliError>)
        ensures
            final(self).map() == old(self).map(),
            answer matches Ok(text) && exists|bot: Coords2D| #[trigger]
                shown(old(self).map(), bot) == text@,
    {
        let botlocation = self.executor.locate();
        let mut s = self.warehouse_info();
        s.append(draw_warehouse(self.warehouse.get_cellgrid(), Some(botlocation)).as_str());
        assert(shown(self.map(), botlocation) == s@);
        Ok(s)
    }
}

/// What is shown of a map with the bot at `bot`: the line that sums it up and
/// its drawing.
pub open spec fn shown(m: Map<Coords2D, CellView>, bot: Coords2D) -> Seq<char> {
    info_text(m) + drawing(m, Some(bot))
}

/// What holds of a command that has been carried out, whatever the bot
/// answered: `before` and `after` are the map before and after, `answer` is
/// the answer of the command line.
///
/// - A command that sends the bot one step forgets no cell; its answer, where
///   it is one, shows the map as it then is.
/// - Saving and loading need a place where the state is kept, which is the
///   caller's: both are answered with `CommandNotImplemented` and change
///   nothing.
/// - Showing and inspecting the map, a near scan and locating the bot change
///   nothing; the first two always give an answer.
/// - Resetting empties the map.
/// - A far scan forgets no cell and changes none that was known.
pub open spec fn dispatched(
    command: Command,
    before: Map<Coords2D, CellView>,
    after: Map<Coords2D, CellView>,
    answer: Result<String, CliError>,
) -> bool {
    match command {
        Command::North | Command::East | Command::South | Command::West => {
            &&& forall|p: Coords2D| before.contains_key(p) ==> #[trigger] after.contains_key(p)
            &&& answer matches Ok(text) ==> exists|bot: Coords2D| #[trigger]
                shown(after, bot) == text@
            &&& answer matches Err(failure) ==> failure is CommandFailed
        },
        Command::SaveState | Command::LoadState => {
            &&& answer matches Err(CliError::CommandNotImplemented)
            &&& after == before
        },
        Command::ShowWarehouse => {
            &&& after == before
            &&& answer matches Ok(text) && exists|bot: Coords2D| #[trigger]
                shown(before, bot) == text@
        },
        Command::InspectWarehouse => {
            &&& after == before
            &&& answer matches Ok(text) && text@ == info_text(before)
        },
        Command::ResetWarehouse => {
            &&& after == Map::<Coords2D, CellView>::empty()
            &&& answer matches Ok(text) && text@ == "cleared warehouse"@
        },
        Command::Near | Command::Locate => {
            &&& after == before
            &&& answer matches Err(failure) ==> failure is CommandFailed
        },
        Command::Far => {
            &&& forall|p: Coords2D|
                before.contains_key(p) ==> after.contains_key(p) && #[trigger] after[p]
                    == before[p]
            &&& answer matches Err(failure) ==> failure is CommandFailed
        },
    }
}

} // verus!
