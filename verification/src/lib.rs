//! A sparse map of a grid warehouse, built step by step from what an exploring
//! bot observes, together with the rules for merging observations and a text
//! renderer for the explored region.

pub mod bot;
pub mod cell;
pub mod cli;
pub mod cliplotter;
pub mod coords;
pub mod direction;
pub mod error;
pub mod exploration;
pub mod grid;
pub mod persist;
pub mod text;
pub mod warehouse;

pub use crate::coords::{get_coords_in_direction, Coords2D};
pub use crate::direction::Direction;
pub use crate::error::Error;
pub use crate::exploration::{
    explore_warehouse_manually, move_bot_in_warehouse, update_warehouse_at_bot_postion,
    update_warehouse_from_scan_far,
};
