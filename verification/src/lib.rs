//! A handful of small, self-contained routines, each with a machine-checked
//! contract.
//!
//! The centre piece is [`stats`], which finds the median and the mode of a
//! list of integers; [`sorting`] and [`frequency`] are what it is built on.
//! [`numeral`] reads decimal numbers from text for the line-based programs
//! whose rules sit in [`guessing`], [`temperature`] and [`server`]. The rest
//! are small helpers that stand on their own.

pub mod arith;
pub mod frequency;
pub mod guessing;
pub mod numeral;
pub mod server;
pub mod shoes;
pub mod smart_box;
pub mod sorting;
pub mod stats;
pub mod summary;
pub mod temperature;
pub mod text;
