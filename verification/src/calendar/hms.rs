//! The time fields of a calendar: hour, minute and second.

use vstd::prelude::*;

use crate::calendar::{
    contains_val, parse_chunk, spec_chunk, spec_split_char, split_bounds, strictly_sorted,
    ChunkValues, FieldSpec,
};
use crate::error::{ErrView, Error};
use crate::text::chars_of;

verus! {

/// Hours in a day.
pub const HOURS_PER_DAY: u8 = 24;

/// Minutes in an hour.
pub const MINUTES_PER_HOUR: u8 = 60;

/// Seconds in a minute.
pub const SECONDS_PER_MINUTE: u8 = 60;

/// The hour(s) a realtime schedule runs at.
#[derive(Clone, Debug, PartialEq, Eq)]
pub enum Hour {
    /// Every hour.
    All,
    /// Specific hours.
    Hours(Vec<u8>),
}

impl Hour {
    /// Does the given hour fall in this field?
    pub open spec fn spec_matches(&self, given: u8) -> bool {
        match self {
            Hour::All => true,
            Hour::Hours(hours) => hours@.contains(given),
        }
    }

    /// Does the given hour fall in this field?
    pub fn matches(&self, given: u8) -> (r: bool)
        ensures
            r == self.spec_matches(given),
    {
        match self {
            Hour::All => true,
            Hour::Hours(hours) => contains_val(hours, given),
        }
    }
}

/// The minute(s) a realtime schedule runs at.
#[derive(Clone, Debug, PartialEq, Eq)]
pub enum Minute {
    /// Every minute.
    All,
    /// Specific minutes.
    Minutes(Vec<u8>),
}

impl Minute {
    /// Does the given minute fall in this field?
    pub open spec fn spec_matches(&self, given: u8) -> bool {
        match self {
            Minute::All => true,
            Minute::Minutes(minutes) => minutes@.contains(given),
        }
    }

    /// Does the given minute fall in this field?
    pub fn matches(&self, given: u8) -> (r: bool)
        ensures
            r == self.spec_matches(given),
    {
        match self {
            Minute::All => true,
            Minute::Minutes(minutes) => contains_val(minutes, given),
        }
    }
}

/// The second(s) a realtime schedule runs at.
#[derive(Clone, Debug, PartialEq, Eq)]
pub enum Second {
    /// Every second.
    All,
    /// Specific seconds.
    Seconds(Vec<u8>),
}

impl Second {
    /// Does the given second fall in this field?
    pub open spec fn spec_matches(&self, given: u8) -> bool {
        match self {
            Second::All => true,
            Second::Seconds(seconds) => seconds@.contains(given),
        }
    }

    /// Does the given second fall in this field?
    pub fn matches(&self, given: u8) -> (r: bool)
        ensures
            r == self.spec_matches(given),
    {
        match self {
            Second::All => true,
            Second::Seconds(seconds) => contains_val(seconds, given),
        }
    }
}

/// Does an hour field agree with what its chunk allows?  A random marker
/// must have become one concrete hour.
pub open spec fn hour_conforms(h: Hour, fs: FieldSpec) -> bool {
    match fs {
        FieldSpec::All => h is All,
        FieldSpec::Rand => h is Hours && h->Hours_0@.len() == 1 && h->Hours_0@[0] < 24,
        FieldSpec::Vals(st) => h is Hours && strictly_sorted(h->Hours_0@) && forall|y: u8|
            #[trigger] h->Hours_0@.contains(y) <==> st.contains(y),
    }
}

/// Does a minute field agree with what its chunk allows?
pub open spec fn minute_conforms(m: Minute, fs: FieldSpec) -> bool {
    match fs {
        FieldSpec::All => m is All,
        FieldSpec::Rand => m is Minutes && m->Minutes_0@.len() == 1 && m->Minutes_0@[0] < 60,
        FieldSpec::Vals(st) => m is Minutes && strictly_sorted(m->Minutes_0@) && forall|y: u8|
            #[trigger] m->Minutes_0@.contains(y) <==> st.contains(y),
    }
}

/// Does a second field agree with what its chunk allows?
pub open spec fn second_conforms(s: Second, fs: FieldSpec) -> bool {
    match fs {
        FieldSpec::All => s is All,
        FieldSpec::Rand => s is Seconds && s->Seconds_0@.len() == 1 && s->Seconds_0@[0] < 60,
        FieldSpec::Vals(st) => s is Seconds && strictly_sorted(s->Seconds_0@) && forall|y: u8|
            #[trigger] s->Seconds_0@.contains(y) <==> st.contains(y),
    }
}

/// What an `HH:MM:SS` part allows: three colon-separated fields, hour first.
pub open spec fn spec_parse_hms(s: Seq<char>) -> Result<
    (FieldSpec, FieldSpec, FieldSpec),
    ErrView,
> {
    let parts = spec_split_char(s, ':');
    if parts.len() == 3 {
        match spec_chunk(parts[0], 24, false) {
            Err(e) => Err(e),
            Ok(h) => match spec_chunk(parts[1], 60, false) {
                Err(e) => Err(e),
                Ok(m) => match spec_chunk(parts[2], 60, false) {
                    Err(e) => Err(e),
                    Ok(sec) => Ok((h, m, sec)),
                },
            },
        }
    } else {
        Err(ErrView::Time(s))
    }
}

/// Parse the `HH:MM:SS` part of a calendar string.
pub fn parse_hms(hms: &str) -> (r: Result<(Hour, Minute, Second), Error>)
    ensures
        match spec_parse_hms(hms@) {
            Ok((fh, fm, fs)) => {
                &&& r is Ok
                &&& hour_conforms(r->Ok_0.0, fh)
                &&& minute_conforms(r->Ok_0.1, fm)
                &&& second_conforms(r->Ok_0.2, fs)
            },
            Err(e) => r is Err && r->Err_0@ == e,
        },
{
    let cs = chars_of(hms);
    let bounds = split_bounds(&cs, ':');
    if bounds.len() != 3 {
        return Err(Error::InvalidTime { time: hms.to_owned() });
    }
    let ghost parts = spec_split_char(hms@, ':');
    let p0 = hms.substring_char(bounds[0].0, bounds[0].1);
    let p1 = hms.substring_char(bounds[1].0, bounds[1].1);
    let p2 = hms.substring_char(bounds[2].0, bounds[2].1);
    proof {
        assert(p0@ == parts[0]);
        assert(p1@ == parts[1]);
        assert(p2@ == parts[2]);
    }
    let hour = match parse_chunk(p0, HOURS_PER_DAY, false, 0, HOURS_PER_DAY) {
        Ok(ChunkValues::All) => Hour::All,
        Ok(ChunkValues::Vals(v)) => Hour::Hours(v),
        Err(e) => {
            return Err(e);
        },
    };
    let minute = match parse_chunk(p1, MINUTES_PER_HOUR, false, 0, MINUTES_PER_HOUR) {
        Ok(ChunkValues::All) => Minute::All,
        Ok(ChunkValues::Vals(v)) => Minute::Minutes(v),
        Err(e) => {
            return Err(e);
        },
    };
    let second = match parse_chunk(p2, SECONDS_PER_MINUTE, false, 0, SECONDS_PER_MINUTE) {
        Ok(ChunkValues::All) => Second::All,
        Ok(ChunkValues::Vals(v)) => Second::Seconds(v),
        Err(e) => {
            return Err(e);
        },
    };
    Ok((hour, minute, second))
}

} // verus!
