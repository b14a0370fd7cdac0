//! Civil date and time values with a fixed UTC offset: conversion to and from an
//! absolute instant, a fixed-grammar text form, arithmetic and ordering.
//!
//! A `DateTime` holds a wall-clock reading (a `Date` and a `Time`) and its offset from
//! UTC in seconds, within a day either way; the instant it denotes is the reading less
//! the offset. Values are equal and ordered by that instant alone.
//!
//! - `set_offset` shows the same instant at another offset: the reading changes, the
//!   instant does not.
//! - `+`, `-`, `add_duration`, `sub_duration` and `add_sub_sec` move the instant and keep
//!   the offset.
//! - In text, `Z` is UTC whatever default offset the parser is given; only text without
//!   any offset takes the default.
//! - Weekdays count from Sunday (0) to Saturday (6), taken at the instant in UTC.
use vstd::prelude::*;

pub mod civil;
pub mod codec;
pub mod date;
pub mod datetime;
pub mod duration;
pub mod error;
pub mod laws;
pub mod local;
pub mod systime;
pub mod template;
pub mod text;
pub mod time_of_day;

pub use crate::date::Date;
pub use crate::datetime::DateTime;
pub use crate::duration::DurationFrom;
pub use crate::local::offset_sec;
pub use crate::time_of_day::Time;

verus! {

} // verus!
