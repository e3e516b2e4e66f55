//! The date fields of a calendar: year, month and day of the month.

use vstd::prelude::*;

use crate::calendar::{
    contains_val, parse_chunk, spec_chunk, spec_find_dotdot, spec_split_char, split_bounds,
    strictly_sorted, ChunkValues, FieldSpec,
};
use crate::error::{ErrView, Error};
use crate::text::{chars_of, parse_i32_chars, spec_all_digits, spec_digits_val, subchars};

verus! {

/// Months in a year.
pub const MONTHS_PER_YEAR: u8 = 12;

/// The bound used for days of the month; months shorter than 31 days simply
/// never reach the last values.
pub const DAYS_PER_MONTH: u8 = 31;

/// The year(s) a realtime schedule runs in.
#[derive(Clone, Copy, Debug, PartialEq, Eq)]
pub enum Year {
    /// Every year.
    All,
    /// An inclusive range of years.
    Range(i32, i32),
    /// The years `start`, `start + rep`, `start + 2 * rep`, ... up to `end`,
    /// or up to 9999 where no end is given.
    Repetition {
        /// The first year of the repetition.
        start: i32,
        /// The optional last year of the repetition.
        end: Option<i32>,
        /// The gap between two years of the repetition.
        rep: u8,
    },
    /// One specific year.
    Year(i32),
}

impl Year {
    /// Does the given year fall in this field?  A repetition with gap zero
    /// names its start year alone.
    pub open spec fn spec_matches(&self, given: i32) -> bool {
        match self {
            Year::All => true,
            Year::Range(lo, hi) => *lo <= given <= *hi,
            Year::Repetition { start, end, rep } => {
                let hi = match end {
                    Some(e) => *e as int,
                    None => 9999,
                };
                &&& *start <= given && given as int <= hi
                &&& if *rep == 0 {
                    given == *start
                } else {
                    (given - *start) % (*rep as int) == 0
                }
            },
            Year::Year(year) => *year == given,
        }
    }

    /// Does the given year fall in this field?
    pub fn matches(&self, given: i32) -> (r: bool)
        ensures
            r == self.spec_matches(given),
    {
        match self {
            Year::All => true,
            Year::Range(lo, hi) => *lo <= given && given <= *hi,
            Year::Repetition { start, end, rep } => {
                let hi: i32 = match end {
                    Some(e) => *e,
                    None => 9999,
                };
                if given < *start || given > hi {
                    false
                } else if *rep == 0 {
                    given == *start
                } else {
                    let diff: i64 = (given as i64) - (*start as i64);
                    diff % (*rep as i64) == 0
                }
            },
            Year::Year(year) => *year == given,
        }
    }
}

/// The month(s) a realtime schedule runs in.
#[derive(Clone, Debug, PartialEq, Eq)]
pub enum Month {
    /// Every month.
    All,
    /// Specific months.
    Months(Vec<u8>),
}

impl Month {
    /// Does the given month fall in this field?
    pub open spec fn spec_matches(&self, given: u8) -> bool {
        match self {
            Month::All => true,
            Month::Months(months) => months@.contains(given),
        }
    }

    /// Does the given month fall in this field?
    pub fn matches(&self, given: u8) -> (r: bool)
        ensures
            r == self.spec_matches(given),
    {
        match self {
            Month::All => true,
            Month::Months(months) => contains_val(months, given),
        }
    }
}

/// The day(s) of the month a realtime schedule runs on.
#[derive(Clone, Debug, PartialEq, Eq)]
pub enum Day {
    /// Every day.
    All,
    /// Specific days.
    Days(Vec<u8>),
}

impl Day {
    /// Does the given day fall in this field?
    pub open spec fn spec_matches(&self, given: u8) -> bool {
        match self {
            Day::All => true,
            Day::Days(days) => days@.contains(given),
        }
    }

    /// Does the given day fall in this field?
    pub fn matches(&self, given: u8) -> (r: bool)
        ensures
            r == self.spec_matches(given),
    {
        match self {
            Day::All => true,
            Day::Days(days) => contains_val(days, given),
        }
    }
}

/// A digit string that names a non-negative `i32`.
pub open spec fn spec_is_i32_token(s: Seq<char>) -> bool {
    s.len() > 0 && spec_all_digits(s) && spec_digits_val(s) <= 0x7fff_ffff
}

/// What a year field allows: every year, a monotone range, or one year.
pub open spec fn spec_parse_year(s: Seq<char>) -> Result<Year, ErrView> {
    if s == "*"@ {
        Ok(Year::All)
    } else {
        match spec_find_dotdot(s) {
            Some(j) => {
                let st = s.take(j);
                let en = s.skip(j + 2);
                if !spec_is_i32_token(st) {
                    Err(ErrView::Value(st))
                } else if !spec_is_i32_token(en) {
                    Err(ErrView::Value(en))
                } else if spec_digits_val(en) < spec_digits_val(st) {
                    Err(ErrView::Range(s))
                } else {
                    Ok(Year::Range(spec_digits_val(st) as i32, spec_digits_val(en) as i32))
                }
            },
            None => {
                if spec_is_i32_token(s) {
                    Ok(Year::Year(spec_digits_val(s) as i32))
                } else {
                    Err(ErrView::Value(s))
                }
            },
        }
    }
}

/// Parse the year field of a date.
pub fn parse_year(yearish: &str) -> (r: Result<Year, Error>)
    ensures
        match spec_parse_year(yearish@) {
            Ok(y) => r is Ok && r->Ok_0 == y,
            Err(e) => r is Err && r->Err_0@ == e,
        },
{
    let cs = chars_of(yearish);
    if crate::text::chars_eq_str(&cs, "*") {
        return Ok(Year::All);
    }
    match crate::calendar::find_dotdot(&cs) {
        Some(j) => {
            let n = cs.len();
            let stcs = subchars(&cs, 0, j);
            let encs = subchars(&cs, j + 2, n);
            proof {
                assert(stcs@ =~= yearish@.take(j as int));
                assert(encs@ =~= yearish@.skip(j + 2));
            }
            let a = match parse_i32_chars(&stcs) {
                Some(a) => a,
                None => {
                    return Err(
                        Error::InvalidValue { value: yearish.substring_char(0, j).to_owned() },
                    );
                },
            };
            let b = match parse_i32_chars(&encs) {
                Some(b) => b,
                None => {
                    return Err(
                        Error::InvalidValue { value: yearish.substring_char(j + 2, n).to_owned() },
                    );
                },
            };
            if b < a {
                return Err(Error::InvalidRange { range: yearish.to_owned() });
            }
            Ok(Year::Range(a, b))
        },
        None => {
            match parse_i32_chars(&cs) {
                Some(v) => Ok(Year::Year(v)),
                None => Err(Error::InvalidValue { value: yearish.to_owned() }),
            }
        },
    }
}

/// Does a month field agree with what its chunk allows?  A random marker
/// must have become one concrete month.
pub open spec fn month_conforms(m: Month, fs: FieldSpec) -> bool {
    match fs {
        FieldSpec::All => m is All,
        FieldSpec::Rand => m is Months && m->Months_0@.len() == 1 && 1 <= m->Months_0@[0] < 13,
        FieldSpec::Vals(st) => m is Months && strictly_sorted(m->Months_0@) && forall|y: u8|
            #[trigger] m->Months_0@.contains(y) <==> st.contains(y),
    }
}

/// Does a day field agree with what its chunk allows?
pub open spec fn day_conforms(d: Day, fs: FieldSpec) -> bool {
    match fs {
        FieldSpec::All => d is All,
        FieldSpec::Rand => d is Days && d->Days_0@.len() == 1 && 1 <= d->Days_0@[0] < 29,
        FieldSpec::Vals(st) => d is Days && strictly_sorted(d->Days_0@) && forall|y: u8|
            #[trigger] d->Days_0@.contains(y) <==> st.contains(y),
    }
}

/// What a `year-month-day` part allows: three dash-separated fields.
pub open spec fn spec_parse_date(s: Seq<char>) -> Result<(Year, FieldSpec, FieldSpec), ErrView> {
    let parts = spec_split_char(s, '-');
    if parts.len() == 3 {
        match spec_parse_year(parts[0]) {
            Err(e) => Err(e),
            Ok(y) => match spec_chunk(parts[1], 12, true) {
                Err(e) => Err(e),
                Ok(mo) => match spec_chunk(parts[2], 31, true) {
                    Err(e) => Err(e),
                    Ok(da) => Ok((y, mo, da)),
                },
            },
        }
    } else {
        Err(ErrView::Date(s))
    }
}

/// Parse the `year-month-day` part of a calendar string.
pub fn parse_date(ymd: &str) -> (r: Result<(Year, Month, Day), Error>)
    ensures
        match spec_parse_date(ymd@) {
            Ok((fy, fm, fd)) => {
                &&& r is Ok
                &&& r->Ok_0.0 == fy
                &&& month_conforms(r->Ok_0.1, fm)
                &&& day_conforms(r->Ok_0.2, fd)
            },
            Err(e) => r is Err && r->Err_0@ == e,
        },
{
    let cs = chars_of(ymd);
    let bounds = split_bounds(&cs, '-');
    if bounds.len() != 3 {
        return Err(Error::InvalidDate { date: ymd.to_owned() });
    }
    let ghost parts = spec_split_char(ymd@, '-');
    let p0 = ymd.substring_char(bounds[0].0, bounds[0].1);
    let p1 = ymd.substring_char(bounds[1].0, bounds[1].1);
    let p2 = ymd.substring_char(bounds[2].0, bounds[2].1);
    proof {
        assert(p0@ == parts[0]);
        assert(p1@ == parts[1]);
        assert(p2@ == parts[2]);
    }
    let year = match parse_year(p0) {
        Ok(y) => y,
        Err(e) => {
            return Err(e);
        },
    };
    let month = match parse_chunk(p1, MONTHS_PER_YEAR, true, 1, 13) {
        Ok(ChunkValues::All) => Month::All,
        Ok(ChunkValues::Vals(v)) => Month::Months(v),
        Err(e) => {
            return Err(e);
        },
    };
    let day = match parse_chunk(p2, DAYS_PER_MONTH, true, 1, 29) {
        Ok(ChunkValues::All) => Day::All,
        Ok(ChunkValues::Vals(v)) => Day::Days(v),
        Err(e) => {
            return Err(e);
        },
    };
    Ok((year, month, day))
}

} // verus!
