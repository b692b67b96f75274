//! A clock for the status bar of a terminal multiplexer: one line that shows
//! the label of a timezone, the date and the time, painted and padded to the
//! width of the terminal. The timezones come from a configuration and can
//! be cycled through.
//!
//! - [`table`]: the ordered table of timezones and cyclic navigation in it.
//! - [`offset`], [`number`], [`text`]: what the configuration is written in.
//! - [`color`]: colours, read from CSS colour expressions.
//! - [`config`]: the configuration and how it is loaded.
//! - [`paint`], [`line`]: the painted line.
//! - [`clock`]: date and time of an instant at an offset from UTC.
//! - [`controller`]: the state of the clock and its answers to events.

pub mod clock;
pub mod color;
pub mod config;
pub mod controller;
pub mod line;
pub mod number;
pub mod offset;
pub mod paint;
pub mod table;
pub mod text;
