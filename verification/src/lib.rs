//! A small chess-board library: the fixed opening layout of the pieces,
//! the geometry that maps between board squares and screen pixels, and the
//! selection logic that answers a mouse click.

pub mod board;
pub mod geometry;
pub mod select;
