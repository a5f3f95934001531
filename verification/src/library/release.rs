//! When a track or an album was released, to the year, the month or the day.

use core::cmp::Ordering;
use vstd::prelude::*;
use crate::pattern::{
    captures, group, parse_u32, regex_captures, spec_group, spec_parse_u32,
};

verus! {

/// A date of release. The variant tells how precise it is.
#[derive(Debug, Clone, Copy, PartialEq, Eq, Structural)]
pub enum Release {
    Year { year: u32 },
    Month { year: u32, month: u32 },
    Day { year: u32, month: u32, day: u32 },
}

/// Why a text is no date of release.
#[derive(Debug, Clone, Copy, PartialEq, Eq, Structural)]
pub enum ParseError {
    /// The input text was not matched.
    Unmatched,
}

/// A date with the year first: four digits at the start or after white space,
/// then, each after one of `-`, `.` and `/`, a month and a day.
pub const DATE_BE: &'static str =
    r"(^|\s)(?P<y>\d{4})(?:[-\./](?P<m>[12]?[1-9]\d)(?:[-\./](?P<d>[1-3]\d))?)?";

/// A date with the year last: at the start or after white space a day and a
/// month, both optional and each followed by one of `-`, `.` and `/`, then four
/// digits.
pub const DATE_LE: &'static str =
    r"(^|\s)(?:(?:(?P<d>[1-3]\d)[-\./])?(?P<m>[12]?[1-9]\d)[-\./])?(?P<y>\d{4})";

/// The number that a capture group writes, if it lies in `low..=high`.
pub open spec fn spec_number_in(text: Option<Seq<char>>, low: u32, high: u32) -> Option<u32> {
    match text {
        Some(t) => match spec_parse_u32(t) {
            Some(n) => if low <= n <= high {
                Some(n)
            } else {
                None
            },
            None => None,
        },
        None => None,
    }
}

/// The release that the texts of a year, a month and a day give. A month
/// counts from 1 to 12 and a day from 1 to 31; one that does not count is
/// left out. Without a year there is no release.
pub open spec fn spec_from_parts(
    year: Option<Seq<char>>,
    month: Option<Seq<char>>,
    day: Option<Seq<char>>,
) -> Option<Release> {
    match spec_number_in(year, 0, u32::MAX) {
        Some(y) => Some(
            Release::spec_new(y, spec_number_in(month, 1, 12), spec_number_in(day, 1, 31)),
        ),
        None => None,
    }
}

/// The release that a text gives, from what the two date patterns capture in
/// it. The pattern with the year first goes before the other, which counts
/// only where the first does not match at all.
pub open spec fn spec_from_captures(
    year_first: Option<Seq<Option<Seq<char>>>>,
    year_last: Option<Seq<Option<Seq<char>>>>,
) -> Result<Release, ParseError> {
    let found = match year_first {
        Some(groups) => spec_from_parts(
            spec_group(groups, 2),
            spec_group(groups, 3),
            spec_group(groups, 4),
        ),
        None => match year_last {
            Some(groups) => spec_from_parts(
                spec_group(groups, 4),
                spec_group(groups, 3),
                spec_group(groups, 2),
            ),
            None => None,
        },
    };
    match found {
        Some(release) => Ok(release),
        None => Err(ParseError::Unmatched),
    }
}

/// How precise a release is: 0 for a year, 1 for a month, 2 for a day.
pub open spec fn precision(release: Release) -> int {
    match release {
        Release::Year { .. } => 0,
        Release::Month { .. } => 1,
        Release::Day { .. } => 2,
    }
}

/// The order of two releases by year, then month, then day, where a month or
/// a day that is not known counts as zero.
pub open spec fn date_order(a: Release, b: Release) -> Ordering {
    let am = match a.spec_month() { Some(m) => m, None => 0 };
    let bm = match b.spec_month() { Some(m) => m, None => 0 };
    let ad = match a.spec_day() { Some(d) => d, None => 0 };
    let bd = match b.spec_day() { Some(d) => d, None => 0 };
    if a.spec_year() != b.spec_year() {
        if a.spec_year() < b.spec_year() {
            Ordering::Less
        } else {
            Ordering::Greater
        }
    } else if am != bm {
        if am < bm {
            Ordering::Less
        } else {
            Ordering::Greater
        }
    } else if ad != bd {
        if ad < bd {
            Ordering::Less
        } else {
            Ordering::Greater
        }
    } else {
        Ordering::Equal
    }
}

impl Release {
    pub open spec fn spec_new(year: u32, month: Option<u32>, day: Option<u32>) -> Release {
        match (month, day) {
            (Some(m), Some(d)) => Release::Day { year, month: m, day: d },
            (Some(m), None) => Release::Month { year, month: m },
            (None, _) => Release::Year { year },
        }
    }

    pub open spec fn spec_year(&self) -> u32 {
        match *self {
            Release::Year { year } => year,
            Release::Month { year, .. } => year,
            Release::Day { year, .. } => year,
        }
    }

    pub open spec fn spec_month(&self) -> Option<u32> {
        match *self {
            Release::Year { .. } => None,
            Release::Month { month, .. } => Some(month),
            Release::Day { month, .. } => Some(month),
        }
    }

    pub open spec fn spec_day(&self) -> Option<u32> {
        match *self {
            Release::Year { .. } => None,
            Release::Month { .. } => None,
            Release::Day { day, .. } => Some(day),
        }
    }

    /// The most precise release that the parts allow: a day needs a month.
    pub fn new(year: u32, month: Option<u32>, day: Option<u32>) -> (r: Release)
        ensures
            r == Self::spec_new(year, month, day),
            r.spec_year() == year,
    {
        match (year, month, day) {
            (y, Some(m), Some(d)) => Release::Day { year: y, month: m, day: d },
            (y, Some(m), _) => Release::Month { year: y, month: m },
            (y, _, _) => Release::Year { year: y },
        }
    }

    /// The more precise of this and another release, in `Year < Month < Day`.
    /// The two need not agree. Where they are equally precise, this one is
    /// returned.
    pub fn most_precise(self, other: Release) -> (r: Release)
        ensures
            r == if precision(other) > precision(self) {
                other
            } else {
                self
            },
    {
        match (self, other) {
            (_, Release::Year { .. }) => self,
            (Release::Year { .. }, _) => other,
            (Release::Day { .. }, _) => self,
            (_, Release::Day { .. }) => other,
            _ => self,
        }
    }

    pub fn year(&self) -> (y: u32)
        ensures
            y == self.spec_year(),
    {
        match *self {
            Release::Year { year } => year,
            Release::Month { year, .. } => year,
            Release::Day { year, .. } => year,
        }
    }

    pub fn month(&self) -> (m: Option<u32>)
        ensures
            m == self.spec_month(),
    {
        match *self {
            Release::Year { .. } => None,
            Release::Month { month, .. } => Some(month),
            Release::Day { month, .. } => Some(month),
        }
    }

    pub fn day(&self) -> (d: Option<u32>)
        ensures
            d == self.spec_day(),
    {
        match *self {
            Release::Year { .. } => None,
            Release::Month { .. } => None,
            Release::Day { day, .. } => Some(day),
        }
    }

    /// Compares two releases by date.
    pub fn ordering(&self, other: &Release) -> (o: Ordering)
        ensures
            o == date_order(*self, *other),
    {
        let am: u32 = match self.month() { Some(m) => m, None => 0 };
        let bm: u32 = match other.month() { Some(m) => m, None => 0 };
        let ad: u32 = match self.day() { Some(d) => d, None => 0 };
        let bd: u32 = match other.day() { Some(d) => d, None => 0 };
        if self.year() != other.year() {
            if self.year() < other.year() {
                Ordering::Less
            } else {
                Ordering::Greater
            }
        } else if am != bm {
            if am < bm {
                Ordering::Less
            } else {
                Ordering::Greater
            }
        } else if ad != bd {
            if ad < bd {
                Ordering::Less
            } else {
                Ordering::Greater
            }
        } else {
            Ordering::Equal
        }
    }

    /// Builds a release from the texts of a year, a month and a day.
    pub fn from_parts(
        year: Option<&Vec<char>>,
        month: Option<&Vec<char>>,
        day: Option<&Vec<char>>,
    ) -> (r: Option<Release>)
        ensures
            r == spec_from_parts(
                match year { Some(t) => Some(t@), None => None },
                match month { Some(t) => Some(t@), None => None },
                match day { Some(t) => Some(t@), None => None },
            ),
    {
        let y: u32 = match year {
            Some(t) => match parse_u32(t) {
                Some(n) => n,
                None => { return None; },
            },
            None => { return None; },
        };
        let m: Option<u32> = match month {
            Some(t) => match parse_u32(t) {
                Some(n) => if 1 <= n && n <= 12 { Some(n) } else { None },
                None => None,
            },
            None => None,
        };
        let d: Option<u32> = match day {
            Some(t) => match parse_u32(t) {
                Some(n) => if 1 <= n && n <= 31 { Some(n) } else { None },
                None => None,
            },
            None => None,
        };
        Some(Release::new(y, m, d))
    }

    /// Reads a release from a text that holds a date, year first or year
    /// last.
    pub fn parse(s: &str) -> (r: Result<Release, ParseError>)
        ensures
            r == spec_from_captures(regex_captures(DATE_BE@, s@), regex_captures(DATE_LE@, s@)),
    {
        let found = match captures(DATE_BE, s) {
            Some(groups) => Release::from_parts(
                group(&groups, 2),
                group(&groups, 3),
                group(&groups, 4),
            ),
            None => match captures(DATE_LE, s) {
                Some(groups) => Release::from_parts(
                    group(&groups, 4),
                    group(&groups, 3),
                    group(&groups, 2),
                ),
                None => None,
            },
        };
        match found {
            Some(release) => Ok(release),
            None => Err(ParseError::Unmatched),
        }
    }
}

impl core::str::FromStr for Release {
    type Err = ParseError;

    /// Reads a release from a text that holds a date, as `parse` does.
    fn from_str(s: &str) -> (r: Result<Release, ParseError>)
        ensures
            r == spec_from_captures(regex_captures(DATE_BE@, s@), regex_captures(DATE_LE@, s@)),
    {
        Release::parse(s)
    }
}

} // verus!
