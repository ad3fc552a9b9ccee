//! What can go wrong while the bot is driven through the warehouse.

use vstd::prelude::*;

verus! {

#[derive(Debug, PartialEq, Eq, Clone, Copy, Structural)]
pub enum Error {
    InvalidDirection,
    /// There is a wall in the way.
    HitWall,
    StoreageFull,
    /// A scan gave no usable answer.
    ScanFailed,
    /// The bot could not be reached or answered in an unexpected way.
    ClientError,
    /// There is no such bot, or the bot is at a place the map does not know.
    InvalidBot,
    /// A value was out of range, such as a negative distance.
    InvalidArgument,
}

} // verus!
