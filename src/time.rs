//! A duration of work in whole hours and minutes.

use vstd::prelude::*;
use vstd::string::*;

use crate::text::{find, find_char, lemma_find_bounds, parse_u32, parse_u32_spec, slice_text};

verus! {

/// A duration of `hours` hours and `minutes` minutes.
#[derive(Debug, Clone, Copy, PartialEq, Eq)]
pub struct Time(pub u32, pub u32);

#[derive(Debug, Clone, Copy, PartialEq, Eq)]
pub enum TimeError {
    /// The text before the first `:` is not a number.
    NoHours,
    /// There is no `:`, or the text after it is not a number.
    NoMinutes,
}

impl TimeError {
    /// The message shown to a user.
    pub fn message(&self) -> &'static str {
        match self {
            TimeError::NoHours => "No hours",
            TimeError::NoMinutes => "No minutes",
        }
    }
}

/// The hours field of `s`: the text before the first `:`.
pub open spec fn hours_field(s: Seq<char>) -> Seq<char> {
    s.subrange(0, find(s, ':', 0))
}

/// The minutes field of `s`: the text between the first and the second `:`,
/// if there is a first.
pub open spec fn minutes_field(s: Seq<char>) -> Option<Seq<char>> {
    let p = find(s, ':', 0);
    if p >= s.len() {
        None
    } else {
        Some(s.subrange(p + 1, find(s, ':', p + 1)))
    }
}

/// What reading `hours:minutes` from `s` gives.
pub open spec fn parse_time_spec(s: Seq<char>) -> Result<Time, TimeError> {
    match parse_u32_spec(hours_field(s)) {
        None => Err(TimeError::NoHours),
        Some(h) => match minutes_field(s) {
            None => Err(TimeError::NoMinutes),
            Some(m) => match parse_u32_spec(m) {
                None => Err(TimeError::NoMinutes),
                Some(mm) => Ok(Time(h, mm)),
            },
        },
    }
}

impl Time {
    pub fn new(hours: u32, minutes: u32) -> (r: Time)
        ensures
            r == Time(hours, minutes),
    {
        Time(hours, minutes)
    }

    pub fn hours(&self) -> (r: u32)
        ensures
            r == self.0,
    {
        self.0
    }

    pub fn minutes(&self) -> (r: u32)
        ensures
            r == self.1,
    {
        self.1
    }

    /// The duration in minutes.
    pub open spec fn total_minutes(self) -> int {
        self.0 * 60 + self.1
    }

    /// Reads `hours:minutes`; text after a second `:` is ignored.
    pub fn parse(value: &str) -> (r: Result<Time, TimeError>)
        ensures
            r == parse_time_spec(value@),
    {
        let n = value.unicode_len();
        let p = find_char(value, ':', 0);
        proof {
            lemma_find_bounds(value@, ':', 0);
        }
        let hours_text = slice_text(value, 0, p);
        let hours = match parse_u32(hours_text.as_str()) {
            None => return Err(TimeError::NoHours),
            Some(h) => h,
        };
        if p >= n {
            return Err(TimeError::NoMinutes);
        }
        let q = find_char(value, ':', p + 1);
        proof {
            lemma_find_bounds(value@, ':', p + 1);
        }
        let minutes_text = slice_text(value, p + 1, q);
        match parse_u32(minutes_text.as_str()) {
            None => Err(TimeError::NoMinutes),
            Some(m) => Ok(Time(hours, m)),
        }
    }
}

impl std::str::FromStr for Time {
    type Err = String;

    fn from_str(value: &str) -> Result<Time, String> {
        match Time::parse(value) {
            Ok(t) => Ok(t),
            Err(e) => Err(e.message().to_owned()),
        }
    }
}

} // verus!
