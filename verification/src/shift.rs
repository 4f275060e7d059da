//! The data model: a validated point in time and the shift record.

use vstd::prelude::*;

verus! {

/// Error for a point in time with a component outside its calendar
/// range (a month of 13, an hour of 24, a day past the month's end).
#[derive(Clone, Copy, PartialEq, Eq, Structural, Debug)]
pub struct InvalidTimestamp;

/// A point in time, date plus time of day, kept as plain components.
/// The whole library works in local ("floating") time: no zone is
/// tracked and encoded tokens carry no `Z` suffix.
#[derive(Clone, Copy, PartialEq, Eq, Structural, Debug)]
pub struct Timestamp {
    pub year: u16,
    pub month: u8,
    pub day: u8,
    pub hour: u8,
    pub minute: u8,
    pub second: u8,
}

/// Days in the given month, February depending on the leap-year rule.
pub open spec fn spec_days_in_month(year: int, month: int) -> int {
    if month == 2 {
        if year % 4 == 0 && (year % 100 != 0 || year % 400 == 0) {
            29
        } else {
            28
        }
    } else if month == 4 || month == 6 || month == 9 || month == 11 {
        30
    } else {
        31
    }
}

/// Days in the given month, February depending on the leap-year rule.
pub fn days_in_month(year: u16, month: u8) -> (d: u8)
    ensures
        d as int == spec_days_in_month(year as int, month as int),
{
    if month == 2 {
        if year % 4 == 0 && (year % 100 != 0 || year % 400 == 0) {
            29
        } else {
            28
        }
    } else if month == 4 || month == 6 || month == 9 || month == 11 {
        30
    } else {
        31
    }
}

impl Timestamp {
    /// Every component lies in its calendar range, and the year fits
    /// the four-digit encoding.
    pub open spec fn valid(self) -> bool {
        &&& self.year <= 9999
        &&& 1 <= self.month <= 12
        &&& 1 <= self.day
        &&& self.day as int <= spec_days_in_month(self.year as int, self.month as int)
        &&& self.hour <= 23
        &&& self.minute <= 59
        &&& self.second <= 59
    }

    /// Runtime check of `valid`.
    pub fn is_valid(&self) -> (r: bool)
        ensures
            r == self.valid(),
    {
        self.year <= 9999 && 1 <= self.month && self.month <= 12 && 1 <= self.day && self.day
            <= days_in_month(self.year, self.month) && self.hour <= 23 && self.minute <= 59
            && self.second <= 59
    }

    /// Checked constructor: returns the timestamp exactly when every
    /// component is in range, and `InvalidTimestamp` otherwise, so an
    /// out-of-range date is reported here rather than turned into a
    /// malformed token later.
    pub fn new(year: u16, month: u8, day: u8, hour: u8, minute: u8, second: u8) -> (r: Result<
        Timestamp,
        InvalidTimestamp,
    >)
        ensures
            r is Ok <==> (Timestamp { year, month, day, hour, minute, second }).valid(),
            r matches Ok(t) ==> t == (Timestamp { year, month, day, hour, minute, second }),
    {
        let t = Timestamp { year, month, day, hour, minute, second };
        if t.is_valid() {
            Ok(t)
        } else {
            Err(InvalidTimestamp)
        }
    }
}

/// One work shift: the label shown as the event summary, the start and
/// end instants, and where the shift takes place.
#[derive(Clone, Debug)]
pub struct Shift {
    pub title: String,
    pub start: Timestamp,
    pub end: Timestamp,
    pub location: String,
}

impl Shift {
    /// Both instants have every component in calendar range. The
    /// serializer asks for this; that `end` does not precede `start`
    /// is the caller's business and is not needed for a well-formed
    /// document.
    pub open spec fn valid(self) -> bool {
        self.start.valid() && self.end.valid()
    }

    /// Runtime check of `valid`.
    pub fn is_valid(&self) -> (r: bool)
        ensures
            r == self.valid(),
    {
        self.start.is_valid() && self.end.is_valid()
    }

    /// Plain constructor; the fields are public and literal
    /// construction works just as well.
    pub fn new(title: String, start: Timestamp, end: Timestamp, location: String) -> (s: Shift)
        ensures
            s.title == title,
            s.start == start,
            s.end == end,
            s.location == location,
    {
        Shift { title, start, end, location }
    }
}

} // verus!
