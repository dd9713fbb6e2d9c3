//! Calendar dates, as an invoice prints them.

use vstd::prelude::*;

use crate::text::{decimal, decimal_text, push_text, repeat, repeat_text};

verus! {

pub open spec fn is_leap_year(y: int) -> bool {
    (y % 4 == 0 && y % 100 != 0) || y % 400 == 0
}

pub open spec fn days_in_month(y: int, m: int) -> int {
    if m == 2 {
        if is_leap_year(y) {
            29
        } else {
            28
        }
    } else if m == 4 || m == 6 || m == 9 || m == 11 {
        30
    } else {
        31
    }
}

/// A date of the Gregorian calendar, in the years 0 to 9999.
#[derive(Debug, Clone, Copy, PartialEq, Eq)]
pub struct Date {
    year: u32,
    month: u32,
    day: u32,
}

/// `n` in decimal, with zeros in front to make it at least `w` digits long.
pub open spec fn padded_decimal(n: nat, w: nat) -> Seq<char> {
    let d = decimal(n);
    if d.len() >= w {
        d
    } else {
        repeat('0', (w - d.len()) as nat) + d
    }
}

/// `n` in decimal, at least `w` digits long.
pub fn padded_decimal_text(n: u32, w: usize) -> (r: String)
    ensures
        r@ == padded_decimal(n as nat, w as nat),
{
    let d = decimal_text(n as u128);
    let len = d.as_str().unicode_len();
    if len >= w {
        d
    } else {
        let mut r = repeat_text('0', w - len);
        push_text(&mut r, d.as_str());
        r
    }
}

/// `"DD. MM. YYYY"`.
pub open spec fn date_text(d: Date) -> Seq<char> {
    padded_decimal(d.d(), 2) + ". "@ + padded_decimal(d.m(), 2) + ". "@ + padded_decimal(d.y(), 4)
}

impl Date {
    #[verifier::type_invariant]
    spec fn valid(self) -> bool {
        self.year <= 9999 && 1 <= self.month <= 12 && 1 <= self.day <= days_in_month(
            self.year as int,
            self.month as int,
        )
    }

    pub closed spec fn y(self) -> nat {
        self.year as nat
    }

    pub closed spec fn m(self) -> nat {
        self.month as nat
    }

    pub closed spec fn d(self) -> nat {
        self.day as nat
    }

    /// A number that orders dates as the calendar does.
    pub open spec fn ordinal(self) -> int {
        ((self.y() * 12 + self.m()) * 31 + self.d()) as int
    }

    /// The date, if it exists in the calendar and its year is at most 9999.
    pub fn new(year: u32, month: u32, day: u32) -> (r: Option<Date>)
        ensures
            r is Some <==> (year <= 9999 && 1 <= month <= 12 && 1 <= day <= days_in_month(
                year as int,
                month as int,
            )),
            r matches Some(x) ==> x.y() == year && x.m() == month && x.d() == day,
    {
        if year > 9999 || month < 1 || month > 12 || day < 1 {
            return None;
        }
        let leap = (year % 4 == 0 && year % 100 != 0) || year % 400 == 0;
        let days: u32 = if month == 2 {
            if leap {
                29
            } else {
                28
            }
        } else if month == 4 || month == 6 || month == 9 || month == 11 {
            30
        } else {
            31
        };
        if day > days {
            return None;
        }
        Some(Date { year, month, day })
    }

    pub fn year(&self) -> (r: u32)
        ensures
            r == self.y(),
    {
        self.year
    }

    pub fn month(&self) -> (r: u32)
        ensures
            r == self.m(),
    {
        self.month
    }

    pub fn day(&self) -> (r: u32)
        ensures
            r == self.d(),
    {
        self.day
    }

    /// Whether `self` comes after `other`.
    pub fn is_after(&self, other: &Date) -> (r: bool)
        ensures
            r == (self.ordinal() > other.ordinal()),
    {
        proof {
            use_type_invariant(self);
            use_type_invariant(other);
        }
        let a = (self.year as u64 * 12 + self.month as u64) * 31 + self.day as u64;
        let b = (other.year as u64 * 12 + other.month as u64) * 31 + other.day as u64;
        a > b
    }

    /// `"DD. MM. YYYY"`.
    pub fn format(&self) -> (r: String)
        ensures
            r@ == date_text(*self),
    {
        let mut r = padded_decimal_text(self.day, 2);
        push_text(&mut r, ". ");
        let m = padded_decimal_text(self.month, 2);
        push_text(&mut r, m.as_str());
        push_text(&mut r, ". ");
        let y = padded_decimal_text(self.year, 4);
        push_text(&mut r, y.as_str());
        r
    }
}

} // verus!
