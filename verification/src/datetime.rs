//! Dates and times as a document holds them.

use vstd::prelude::*;

verus! {

/// A calendar date.
#[derive(Clone, Copy, Debug, PartialEq, Eq, Structural)]
pub struct Date {
    pub year: u16,
    pub month: u8,
    pub day: u8,
}

/// A time of day.
#[derive(Clone, Copy, Debug, PartialEq, Eq, Structural)]
pub struct Time {
    pub hour: u8,
    pub minute: u8,
    pub second: u8,
    pub nanosecond: u32,
}

/// An offset from UTC.
#[derive(Clone, Copy, Debug, PartialEq, Eq, Structural)]
pub enum Offset {
    /// UTC itself.
    Z,
    /// So many minutes east of UTC; west where negative.
    Custom { minutes: i16 },
}

/// A date, a time, or both, with or without an offset.
#[derive(Clone, Copy, Debug, PartialEq, Eq, Structural)]
pub struct Datetime {
    pub date: Option<Date>,
    pub time: Option<Time>,
    pub offset: Option<Offset>,
}

} // verus!
