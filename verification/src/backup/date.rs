//! The calendar date of a backup run and how the storage layout writes it.
use vstd::prelude::*;
use crate::text::dec;

verus! {

/// The local calendar date of a backup run.
#[derive(Debug, Clone, Copy, PartialEq, Eq, Structural)]
pub struct RunDate {
    pub year: i32,
    pub month: u32,
    pub day: u32,
}

pub open spec fn is_leap_year(y: int) -> bool {
    y % 4 == 0 && (y % 100 != 0 || y % 400 == 0)
}

pub open spec fn days_in_month(y: int, m: int) -> int {
    if m == 2 {
        if is_leap_year(y) { 29 } else { 28 }
    } else if m == 4 || m == 6 || m == 9 || m == 11 {
        30
    } else {
        31
    }
}

/// A date of the proleptic Gregorian calendar within the range of `chrono`.
pub open spec fn valid_date(y: int, m: int, d: int) -> bool {
    &&& -262143 <= y <= 262142
    &&& 1 <= m <= 12
    &&& 1 <= d <= days_in_month(y, m)
}

impl RunDate {
    pub open spec fn valid(&self) -> bool {
        valid_date(self.year as int, self.month as int, self.day as int)
    }
}

/// `n` in decimal, with leading zeros up to `width` digits.
pub open spec fn padded(n: nat, width: nat) -> Seq<char> {
    if dec(n).len() < width {
        Seq::new((width - dec(n).len()) as nat, |i: int| '0') + dec(n)
    } else {
        dec(n)
    }
}

/// The year as `%Y` writes it: four digits at least, with a sign when it
/// is negative or past 9999.
pub open spec fn year_text(y: int) -> Seq<char> {
    if 0 <= y < 10000 {
        padded(y as nat, 4)
    } else if y >= 10000 {
        seq!['+'] + padded(y as nat, 4)
    } else {
        seq!['-'] + padded((-y) as nat, 4)
    }
}

/// A month or day as `%m` and `%d` write it: two digits.
pub open spec fn two_digits(v: int) -> Seq<char> {
    padded(v as nat, 2)
}

/// One field of a date as `chrono` formats it: `%Y`, `%m` or `%d`.
pub open spec fn date_field_text(date: RunDate, pattern: Seq<char>) -> Seq<char> {
    if pattern == "%Y"@ {
        year_text(date.year as int)
    } else if pattern == "%m"@ {
        two_digits(date.month as int)
    } else {
        two_digits(date.day as int)
    }
}

/// `chrono::NaiveDate::format` with `%Y`, `%m` or `%d`, of a valid date.
/// `%Y` writes at least four digits, zero-padded, with a `+` or `-` sign
/// when the year is outside `0..10000`; `%m` and `%d` write two digits.
#[verifier::external_body]
fn chrono_format(date: &RunDate, pattern: &str) -> (r: String)
    requires
        date.valid(),
        pattern@ == "%Y"@ || pattern@ == "%m"@ || pattern@ == "%d"@,
    ensures
        r@ == date_field_text(*date, pattern@),
{
    chrono::NaiveDate::from_ymd_opt(date.year, date.month, date.day).unwrap().format(pattern).to_string()
}

impl RunDate {
    /// The year, as the storage layout names its directory.
    pub fn year_dirname(&self) -> (r: String)
        requires
            self.valid(),
        ensures
            r@ == year_text(self.year as int),
    {
        proof {
            reveal_strlit("%Y");
        }
        chrono_format(self, "%Y")
    }

    /// The month, as the storage layout names its directory.
    pub fn month_dirname(&self) -> (r: String)
        requires
            self.valid(),
        ensures
            r@ == two_digits(self.month as int),
    {
        proof {
            reveal_strlit("%Y");
            reveal_strlit("%m");
            assert("%m"@[1] != "%Y"@[1]);
        }
        chrono_format(self, "%m")
    }

    /// The day, as the storage layout names its directory.
    pub fn day_dirname(&self) -> (r: String)
        requires
            self.valid(),
        ensures
            r@ == two_digits(self.day as int),
    {
        proof {
            reveal_strlit("%Y");
            reveal_strlit("%m");
            reveal_strlit("%d");
            assert("%d"@[1] != "%Y"@[1]);
            assert("%d"@[1] != "%m"@[1]);
        }
        chrono_format(self, "%d")
    }
}

} // verus!
