//! Calendar dates as plain numeric triples, ordered the way their
//! `YYYY-MM-DD` renderings order lexicographically.

use vstd::prelude::*;

verus! {

/// A calendar date. The store renders dates as `YYYY-MM-DD` strings and
/// compares them lexicographically; over well-formed dates that order is
/// exactly the lexicographic order on `(year, month, day)`.
#[derive(Clone, Copy, Debug, PartialEq, Eq, Structural)]
pub struct Date {
    pub year: i32,
    pub month: i32,
    pub day: i32,
}

/// A date the ledger can hold: four-digit year, month in `[1, 12]` and day
/// in `[1, 31]`. Days are not calendar-validated; period bounds use a fixed
/// day 31, and inclusive range comparison decides membership.
pub open spec fn date_wf(d: Date) -> bool {
    &&& 0 <= d.year <= 9999
    &&& 1 <= d.month <= 12
    &&& 1 <= d.day <= 31
}

/// Lexicographic order on `(year, month, day)`.
pub open spec fn date_le(a: Date, b: Date) -> bool {
    if a.year != b.year {
        a.year < b.year
    } else if a.month != b.month {
        a.month < b.month
    } else {
        a.day <= b.day
    }
}

impl Date {
    /// `self` is on or before `other` in calendar order.
    pub fn le(&self, other: &Date) -> (r: bool)
        ensures
            r == date_le(*self, *other),
    {
        if self.year != other.year {
            self.year < other.year
        } else if self.month != other.month {
            self.month < other.month
        } else {
            self.day <= other.day
        }
    }

    /// The fields lie in the bands a stored date may use.
    pub fn in_bounds(&self) -> (r: bool)
        ensures
            r == date_wf(*self),
    {
        0 <= self.year && self.year <= 9999 && 1 <= self.month && self.month <= 12 && 1 <= self.day
            && self.day <= 31
    }
}

/// Inclusive period bounds: a single month when one is given, else the
/// whole year. The upper bound's day is the fixed 31 whatever the month's
/// true length.
pub open spec fn spec_period_range(year: i32, month: Option<i32>) -> (Date, Date) {
    match month {
        Some(m) => (Date { year, month: m, day: 1 }, Date { year, month: m, day: 31 }),
        None => (Date { year, month: 1, day: 1 }, Date { year, month: 12, day: 31 }),
    }
}

/// Computes the inclusive period bounds: a single month when one is given,
/// else the whole year. The upper bound's day is the fixed 31 whatever the
/// month's true length; entries dated on days a month lacks fall out by
/// range comparison alone.
pub fn period_range(year: i32, month: Option<i32>) -> (r: (Date, Date))
    requires
        0 <= year <= 9999,
        month matches Some(m) ==> 1 <= m <= 12,
    ensures
        r == spec_period_range(year, month),
        date_wf(r.0),
        date_wf(r.1),
{
    match month {
        Some(m) => (Date { year, month: m, day: 1 }, Date { year, month: m, day: 31 }),
        None => (Date { year, month: 1, day: 1 }, Date { year, month: 12, day: 31 }),
    }
}

/// The byte is an ASCII decimal digit.
pub open spec fn is_ascii_digit(b: u8) -> bool {
    48 <= b <= 57
}

/// Numeric value of an ASCII decimal digit.
pub open spec fn digit_val(b: u8) -> int {
    b as int - 48
}

/// The bytes spell a date in `YYYY-MM-DD` shape: ten bytes, hyphens at
/// positions 4 and 7, decimal digits everywhere else.
pub open spec fn date_bytes_wf(s: Seq<u8>) -> bool {
    &&& s.len() == 10
    &&& s[4] == 45u8
    &&& s[7] == 45u8
    &&& is_ascii_digit(s[0])
    &&& is_ascii_digit(s[1])
    &&& is_ascii_digit(s[2])
    &&& is_ascii_digit(s[3])
    &&& is_ascii_digit(s[5])
    &&& is_ascii_digit(s[6])
    &&& is_ascii_digit(s[8])
    &&& is_ascii_digit(s[9])
}

/// The year spelled by the first four bytes.
pub open spec fn year_of_bytes(s: Seq<u8>) -> int {
    1000 * digit_val(s[0]) + 100 * digit_val(s[1]) + 10 * digit_val(s[2]) + digit_val(s[3])
}

/// The month spelled by bytes 5 and 6.
pub open spec fn month_of_bytes(s: Seq<u8>) -> int {
    10 * digit_val(s[5]) + digit_val(s[6])
}

/// The day spelled by bytes 8 and 9.
pub open spec fn day_of_bytes(s: Seq<u8>) -> int {
    10 * digit_val(s[8]) + digit_val(s[9])
}

/// Reads a `YYYY-MM-DD` date from raw bytes. Returns `None` exactly when the
/// bytes do not have that shape; the fields of a successful parse are the
/// spelled numbers, with no further calendar validation.
pub fn parse_date(s: &[u8]) -> (r: Option<Date>)
    ensures
        r is Some <==> date_bytes_wf(s@),
        r matches Some(d) ==> d.year == year_of_bytes(s@) && d.month == month_of_bytes(s@)
            && d.day == day_of_bytes(s@),
{
    if s.len() != 10 {
        return None;
    }
    if s[4] != 45 || s[7] != 45 {
        return None;
    }
    let mut k: usize = 0;
    while k < 10
        invariant
            k <= 10,
            s@.len() == 10,
            forall|j: int| 0 <= j < k && j != 4 && j != 7 ==> is_ascii_digit(s@[j]),
        decreases 10 - k,
    {
        if k != 4 && k != 7 {
            let b = s[k];
            if b < 48 || b > 57 {
                return None;
            }
        }
        k = k + 1;
    }
    let year: i32 = 1000 * ((s[0] - 48) as i32) + 100 * ((s[1] - 48) as i32) + 10 * ((s[2]
        - 48) as i32) + ((s[3] - 48) as i32);
    let month: i32 = 10 * ((s[5] - 48) as i32) + ((s[6] - 48) as i32);
    let day: i32 = 10 * ((s[8] - 48) as i32) + ((s[9] - 48) as i32);
    Some(Date { year, month, day })
}

} // verus!
