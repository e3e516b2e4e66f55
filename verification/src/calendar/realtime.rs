//! A parsed realtime calendar: seven orthogonal fields, each matched
//! independently against a wall-clock moment, and the parser for the
//! systemd-like calendar strings that produce one.

use vstd::prelude::*;

use crate::calendar::dow::{spec_parse_day_of_week, parse_day_of_week, DayOfWeek};
use crate::calendar::hms::{
    hour_conforms, minute_conforms, parse_hms, second_conforms, spec_parse_hms, Hour, Minute,
    Second,
};
use crate::calendar::ymd::{
    day_conforms, month_conforms, parse_date, spec_parse_date, Day, Month, Year,
};
use crate::calendar::{strictly_sorted, FieldSpec};
use crate::error::{ErrView, Error};
use crate::text::{chars_eq_str, chars_of, subchars};

verus! {

/// One wall-clock moment, already broken into calendar fields: the year,
/// one-based month and day, the time of day, and the weekday with Sunday
/// being 0.
#[derive(Clone, Copy, Debug, PartialEq, Eq)]
pub struct Moment {
    /// The calendar year.
    pub year: i32,
    /// The month, 1 to 12.
    pub month: u8,
    /// The day of the month, 1 to 31.
    pub day: u8,
    /// The hour, 0 to 23.
    pub hour: u8,
    /// The minute, 0 to 59.
    pub minute: u8,
    /// The second, 0 to 59.
    pub second: u8,
    /// The day of the week, Sunday being 0 and Saturday 6.
    pub day_of_week: u8,
}

/// A realtime schedule: the moments it runs at are the conjunction of its
/// seven field matchers.
#[derive(Clone, Debug, PartialEq, Eq)]
pub struct Realtime {
    /// The day(s) of the week to run.
    pub day_of_week: DayOfWeek,
    /// The year(s) to run.
    pub year: Year,
    /// The month(s) to run.
    pub month: Month,
    /// The day(s) of the month to run.
    pub day: Day,
    /// The hour(s) to run.
    pub hour: Hour,
    /// The minute(s) to run.
    pub minute: Minute,
    /// The second(s) to run.
    pub second: Second,
}

impl Realtime {
    /// Does this schedule run at the given moment?
    pub open spec fn spec_should_run(&self, m: Moment) -> bool {
        &&& self.day_of_week.spec_matches(m.day_of_week)
        &&& self.year.spec_matches(m.year)
        &&& self.month.spec_matches(m.month)
        &&& self.day.spec_matches(m.day)
        &&& self.hour.spec_matches(m.hour)
        &&& self.minute.spec_matches(m.minute)
        &&& self.second.spec_matches(m.second)
    }

    /// Every field allows every value.
    pub open spec fn is_all(&self) -> bool {
        &&& self.day_of_week is All
        &&& self.year is All
        &&& self.month is All
        &&& self.day is All
        &&& self.hour is All
        &&& self.minute is All
        &&& self.second is All
    }

    /// Build a schedule from its seven fields.
    pub fn new(
        day_of_week: DayOfWeek,
        year: Year,
        month: Month,
        day: Day,
        hour: Hour,
        minute: Minute,
        second: Second,
    ) -> (r: Realtime)
        ensures
            r == (Realtime { day_of_week, year, month, day, hour, minute, second }),
    {
        Realtime { day_of_week, year, month, day, hour, minute, second }
    }

    /// Should this schedule run at this time?
    pub fn should_run(&self, now: &Moment) -> (r: bool)
        ensures
            r == self.spec_should_run(*now),
    {
        self.day_of_week.matches(now.day_of_week) && self.year.matches(now.year)
            && self.month.matches(now.month) && self.day.matches(now.day) && self.hour.matches(
            now.hour,
        ) && self.minute.matches(now.minute) && self.second.matches(now.second)
    }
}

impl Default for Realtime {
    /// The schedule that runs every second.
    fn default() -> (r: Realtime)
        ensures
            r.is_all(),
    {
        Realtime {
            day_of_week: DayOfWeek::All,
            year: Year::All,
            month: Month::All,
            day: Day::All,
            hour: Hour::All,
            minute: Minute::All,
            second: Second::All,
        }
    }
}

// ---------------------------------------------------------------------------
// Laws of the matcher
// ---------------------------------------------------------------------------
/// A schedule whose fields all read `*` runs at every moment.
pub proof fn lemma_all_matches_every_moment(rt: Realtime, m: Moment)
    requires
        rt.is_all(),
    ensures
        rt.spec_should_run(m),
{
}

/// A schedule for weekdays one through five at one exact time of day runs
/// at a moment exactly when the moment is such a weekday at that time.
pub proof fn lemma_weekday_window_exact(rt: Realtime, m: Moment)
    requires
        rt.day_of_week is Days,
        forall|y: u8| #[trigger] rt.day_of_week->Days_0@.contains(y) <==> 1 <= y <= 5,
        rt.year is All,
        rt.month is All,
        rt.day is All,
        rt.hour is Hours,
        forall|y: u8| #[trigger] rt.hour->Hours_0@.contains(y) <==> y == 9,
        rt.minute is Minutes,
        forall|y: u8| #[trigger] rt.minute->Minutes_0@.contains(y) <==> y == 0,
        rt.second is Seconds,
        forall|y: u8| #[trigger] rt.second->Seconds_0@.contains(y) <==> y == 0,
    ensures
        rt.spec_should_run(m) <==> (1 <= m.day_of_week <= 5 && m.hour == 9 && m.minute == 0
            && m.second == 0),
{
}

/// A schedule whose time fields are single values and whose date fields all
/// read `*` runs at exactly one time of day: every moment it runs at shows
/// that hour, minute and second, and every moment showing them is run at.
pub proof fn lemma_single_time_of_day(rt: Realtime, m: Moment, h0: u8, m0: u8, s0: u8)
    requires
        rt.day_of_week is All,
        rt.year is All,
        rt.month is All,
        rt.day is All,
        rt.hour is Hours,
        forall|y: u8| #[trigger] rt.hour->Hours_0@.contains(y) <==> y == h0,
        rt.minute is Minutes,
        forall|y: u8| #[trigger] rt.minute->Minutes_0@.contains(y) <==> y == m0,
        rt.second is Seconds,
        forall|y: u8| #[trigger] rt.second->Seconds_0@.contains(y) <==> y == s0,
    ensures
        rt.spec_should_run(m) <==> (m.hour == h0 && m.minute == m0 && m.second == s0),
{
}

// ---------------------------------------------------------------------------
// Splitting a calendar string on whitespace
// ---------------------------------------------------------------------------
/// Is `c` a whitespace character of a calendar string?
pub open spec fn spec_is_ws(c: char) -> bool {
    c == ' ' || c == '\t' || c == '\n' || c == '\r'
}

fn is_ws(c: char) -> (r: bool)
    ensures
        r == spec_is_ws(c),
{
    c == ' ' || c == '\t' || c == '\n' || c == '\r'
}

/// The length of the leading run of non-whitespace characters.
pub open spec fn spec_token_end(s: Seq<char>) -> int
    decreases s.len(),
{
    if s.len() == 0 {
        0
    } else if spec_is_ws(s[0]) {
        0
    } else {
        1 + spec_token_end(s.drop_first())
    }
}

proof fn lemma_token_end_bounds(s: Seq<char>)
    ensures
        0 <= spec_token_end(s) <= s.len(),
        s.len() > 0 && !spec_is_ws(s[0]) ==> spec_token_end(s) >= 1,
    decreases s.len(),
{
    if s.len() > 0 && !spec_is_ws(s[0]) {
        lemma_token_end_bounds(s.drop_first());
    }
}

proof fn lemma_token_end_is(s: Seq<char>, t: int)
    requires
        0 <= t <= s.len(),
        forall|k: int| 0 <= k < t ==> !spec_is_ws(#[trigger] s[k]),
        t == s.len() || spec_is_ws(s[t]),
    ensures
        spec_token_end(s) == t,
    decreases s.len(),
{
    if t > 0 {
        lemma_token_end_is(s.drop_first(), t - 1);
    }
}

/// The whitespace-separated tokens of `s`, in order; runs of whitespace
/// separate tokens and never produce empty ones.
pub open spec fn spec_split_ws(s: Seq<char>) -> Seq<Seq<char>>
    decreases s.len(),
    via spec_split_ws_decreases
{
    if s.len() == 0 {
        Seq::empty()
    } else if spec_is_ws(s[0]) {
        spec_split_ws(s.drop_first())
    } else {
        seq![s.take(spec_token_end(s))] + spec_split_ws(s.skip(spec_token_end(s)))
    }
}

#[via_fn]
proof fn spec_split_ws_decreases(s: Seq<char>) {
    lemma_token_end_bounds(s);
}

/// The tokens that a vector of boundary pairs cuts out of `cs`.
pub open spec fn bounds_view(cs: Seq<char>, bs: Seq<(usize, usize)>) -> Seq<Seq<char>> {
    bs.map_values(|b: (usize, usize)| cs.subrange(b.0 as int, b.1 as int))
}

/// The boundaries of the whitespace-separated tokens of `cs`.
#[verifier::spinoff_prover]
#[verifier::rlimit(30)]
pub fn ws_bounds(cs: &Vec<char>) -> (r: Vec<(usize, usize)>)
    ensures
        ({
            let parts = spec_split_ws(cs@);
            &&& r@.len() == parts.len()
            &&& forall|i: int|
                0 <= i < r@.len() ==> {
                    &&& #[trigger] r@[i].0 <= r@[i].1 <= cs@.len()
                    &&& cs@.subrange(r@[i].0 as int, r@[i].1 as int) == parts[i]
                }
        }),
{
    let mut r: Vec<(usize, usize)> = Vec::new();
    let mut p: usize = 0;
    proof {
        assert(cs@.skip(0) =~= cs@);
        assert(bounds_view(cs@, r@) =~= Seq::<Seq<char>>::empty());
    }
    loop
        invariant
            p <= cs@.len(),
            spec_split_ws(cs@) =~= bounds_view(cs@, r@) + spec_split_ws(cs@.skip(p as int)),
            forall|i: int| 0 <= i < r@.len() ==> #[trigger] r@[i].0 <= r@[i].1 <= cs@.len(),
        decreases cs@.len() - p,
    {
        let ghost p_head = p;
        // skip whitespace
        while p < cs.len() && is_ws(cs[p])
            invariant
                p_head <= p <= cs@.len(),
                spec_split_ws(cs@) =~= bounds_view(cs@, r@) + spec_split_ws(cs@.skip(p as int)),
            decreases cs@.len() - p,
        {
            proof {
                assert(cs@.skip(p as int).drop_first() =~= cs@.skip(p + 1));
                assert(spec_split_ws(cs@.skip(p as int)) == spec_split_ws(cs@.skip(p + 1)));
            }
            p += 1;
        }
        if p == cs.len() {
            proof {
                assert(cs@.skip(p as int).len() == 0);
                assert(spec_split_ws(cs@.skip(p as int)) =~= Seq::<Seq<char>>::empty());
                let parts = spec_split_ws(cs@);
                assert(parts =~= bounds_view(cs@, r@));
                assert forall|i: int| 0 <= i < r@.len() implies {
                    &&& #[trigger] r@[i].0 <= r@[i].1 <= cs@.len()
                    &&& cs@.subrange(r@[i].0 as int, r@[i].1 as int) == parts[i]
                } by {
                    assert(parts[i] == bounds_view(cs@, r@)[i]);
                }
            }
            return r;
        }
        // scan the token
        let mut k: usize = p;
        while k < cs.len() && !is_ws(cs[k])
            invariant
                p <= k <= cs@.len(),
                forall|t: int| p <= t < k ==> !spec_is_ws(#[trigger] cs@[t]),
            decreases cs@.len() - k,
        {
            k += 1;
        }
        let ghost tail = cs@.skip(p as int);
        proof {
            assert(forall|t: int| 0 <= t < tail.len() ==> tail[t] == cs@[t + p]);
            lemma_token_end_is(tail, k - p);
            assert(tail.take(k - p) =~= cs@.subrange(p as int, k as int));
            assert(tail.skip(k - p) =~= cs@.skip(k as int));
            assert(spec_split_ws(tail) == seq![cs@.subrange(p as int, k as int)] + spec_split_ws(
                cs@.skip(k as int),
            ));
        }
        r.push((p, k));
        proof {
            assert(bounds_view(cs@, r@) =~= bounds_view(cs@, r@.drop_last()).push(
                cs@.subrange(p as int, k as int),
            ));
        }
        p = k;
    }
}

// ---------------------------------------------------------------------------
// The calendar parser
// ---------------------------------------------------------------------------
/// The shape of a parsed calendar: what each of the seven fields allows,
/// with random markers not yet resolved.
pub struct CalSpec {
    /// The allowed weekdays; `None` allows all.
    pub dow: Option<Set<u8>>,
    /// The allowed years.
    pub year: Year,
    /// The allowed months.
    pub month: FieldSpec,
    /// The allowed days of the month.
    pub day: FieldSpec,
    /// The allowed hours.
    pub hour: FieldSpec,
    /// The allowed minutes.
    pub minute: FieldSpec,
    /// The allowed seconds.
    pub second: FieldSpec,
}

/// Does a day-of-week field agree with what the calendar allows?
pub open spec fn dow_conforms(d: DayOfWeek, o: Option<Set<u8>>) -> bool {
    match o {
        None => d is All,
        Some(st) => d is Days && strictly_sorted(d->Days_0@) && forall|y: u8|
            #[trigger] d->Days_0@.contains(y) <==> st.contains(y),
    }
}

/// Does a whole schedule agree with what the calendar allows?
pub open spec fn rt_conforms(rt: Realtime, c: CalSpec) -> bool {
    &&& dow_conforms(rt.day_of_week, c.dow)
    &&& rt.year == c.year
    &&& month_conforms(rt.month, c.month)
    &&& day_conforms(rt.day, c.day)
    &&& hour_conforms(rt.hour, c.hour)
    &&& minute_conforms(rt.minute, c.minute)
    &&& second_conforms(rt.second, c.second)
}

/// The set holding one value.
pub open spec fn one_of(v: u8) -> Set<u8> {
    Set::new(|y: u8| y == v)
}

// ---------------------------------------------------------------------------
// Laws tying the parser to the matcher
// ---------------------------------------------------------------------------
/// A schedule parsed from a calendar that allows every field runs at every
/// moment.
pub proof fn lemma_parsed_all_matches(rt: Realtime, c: CalSpec, m: Moment)
    requires
        rt_conforms(rt, c),
        c.dow is None,
        c.year is All,
        c.month is All,
        c.day is All,
        c.hour is All,
        c.minute is All,
        c.second is All,
    ensures
        rt.spec_should_run(m),
{
}

/// A schedule parsed from a calendar that allows weekdays one through five
/// at nine o'clock sharp runs at a moment exactly when the moment is such a
/// weekday at that time.
pub proof fn lemma_parsed_weekday_window(rt: Realtime, c: CalSpec, m: Moment)
    requires
        rt_conforms(rt, c),
        c.dow matches Some(ds) && (forall|y: u8| #[trigger] ds.contains(y) <==> 1 <= y <= 5),
        c.year is All,
        c.month is All,
        c.day is All,
        c.hour matches FieldSpec::Vals(hs) && (forall|y: u8| #[trigger] hs.contains(y) <==> y
            == 9),
        c.minute matches FieldSpec::Vals(ms) && (forall|y: u8| #[trigger] ms.contains(y) <==> y
            == 0),
        c.second matches FieldSpec::Vals(ss) && (forall|y: u8| #[trigger] ss.contains(y) <==> y
            == 0),
    ensures
        rt.spec_should_run(m) <==> (1 <= m.day_of_week <= 5 && m.hour == 9 && m.minute == 0
            && m.second == 0),
{
    lemma_weekday_window_exact(rt, m);
}

/// A schedule parsed from a calendar whose time fields are all the random
/// marker holds one concrete hour, minute and second, each in range, and
/// runs at exactly the moments showing that one time of day: once a day.
pub proof fn lemma_parsed_random_time(rt: Realtime, c: CalSpec, m: Moment)
    requires
        rt_conforms(rt, c),
        c.dow is None,
        c.year is All,
        c.month is All,
        c.day is All,
        c.hour is Rand,
        c.minute is Rand,
        c.second is Rand,
    ensures
        rt.hour matches Hour::Hours(hs) && hs@.len() == 1 && hs@[0] < 24,
        rt.minute matches Minute::Minutes(ms) && ms@.len() == 1 && ms@[0] < 60,
        rt.second matches Second::Seconds(ss) && ss@.len() == 1 && ss@[0] < 60,
        rt.spec_should_run(m) <==> (m.hour == rt.hour->Hours_0@[0] && m.minute
            == rt.minute->Minutes_0@[0] && m.second == rt.second->Seconds_0@[0]),
{
    let hs = rt.hour->Hours_0@;
    let ms = rt.minute->Minutes_0@;
    let ss = rt.second->Seconds_0@;
    assert(forall|y: u8| #[trigger] hs.contains(y) <==> y == hs[0]) by {
        assert(hs.contains(hs[0]));
        assert(forall|y: u8| hs.contains(y) ==> y == hs[0]) by {
            assert(forall|i: int| 0 <= i < hs.len() ==> #[trigger] hs[i] == hs[0]);
        }
    }
    assert(forall|y: u8| #[trigger] ms.contains(y) <==> y == ms[0]) by {
        assert(ms.contains(ms[0]));
        assert(forall|y: u8| ms.contains(y) ==> y == ms[0]) by {
            assert(forall|i: int| 0 <= i < ms.len() ==> #[trigger] ms[i] == ms[0]);
        }
    }
    assert(forall|y: u8| #[trigger] ss.contains(y) <==> y == ss[0]) by {
        assert(ss.contains(ss[0]));
        assert(forall|y: u8| ss.contains(y) ==> y == ss[0]) by {
            assert(forall|i: int| 0 <= i < ss.len() ==> #[trigger] ss[i] == ss[0]);
        }
    }
    lemma_single_time_of_day(rt, m, hs[0], ms[0], ss[0]);
}

/// What a calendar of explicit parts allows: an optional day-of-week part,
/// an optional date part, and a time part.
pub open spec fn spec_cal_parts(
    dow: Option<Seq<char>>,
    date: Option<Seq<char>>,
    hms: Seq<char>,
) -> Result<CalSpec, ErrView> {
    let dowr = match dow {
        None => Ok(None),
        Some(d) => spec_parse_day_of_week(d),
    };
    match dowr {
        Err(e) => Err(e),
        Ok(dw) => {
            let dater = match date {
                None => Ok((Year::All, FieldSpec::All, FieldSpec::All)),
                Some(d) => spec_parse_date(d),
            };
            match dater {
                Err(e) => Err(e),
                Ok((y, mo, da)) => match spec_parse_hms(hms) {
                    Err(e) => Err(e),
                    Ok((h, mi, se)) => Ok(
                        CalSpec {
                            dow: dw,
                            year: y,
                            month: mo,
                            day: da,
                            hour: h,
                            minute: mi,
                            second: se,
                        },
                    ),
                },
            }
        },
    }
}

/// What a whole calendar string allows: a mnemonic, `dow date hms`,
/// `date hms`, or `hms` alone.
pub open spec fn spec_parse_calendar(s: Seq<char>) -> Result<CalSpec, ErrView> {
    let parts = spec_split_ws(s);
    if parts.len() == 3 {
        spec_cal_parts(Some(parts[0]), Some(parts[1]), parts[2])
    } else if parts.len() == 2 {
        spec_cal_parts(None, Some(parts[0]), parts[1])
    } else if parts.len() == 1 {
        let t = parts[0];
        if t == "minutely"@ {
            Ok(
                CalSpec {
                    dow: None,
                    year: Year::All,
                    month: FieldSpec::All,
                    day: FieldSpec::All,
                    hour: FieldSpec::All,
                    minute: FieldSpec::All,
                    second: FieldSpec::Vals(one_of(0)),
                },
            )
        } else if t == "hourly"@ {
            Ok(
                CalSpec {
                    dow: None,
                    year: Year::All,
                    month: FieldSpec::All,
                    day: FieldSpec::All,
                    hour: FieldSpec::All,
                    minute: FieldSpec::Vals(one_of(0)),
                    second: FieldSpec::Vals(one_of(0)),
                },
            )
        } else if t == "daily"@ {
            Ok(
                CalSpec {
                    dow: None,
                    year: Year::All,
                    month: FieldSpec::All,
                    day: FieldSpec::All,
                    hour: FieldSpec::Vals(one_of(0)),
                    minute: FieldSpec::Vals(one_of(0)),
                    second: FieldSpec::Vals(one_of(0)),
                },
            )
        } else if t == "weekly"@ {
            Ok(
                CalSpec {
                    dow: Some(one_of(1)),
                    year: Year::All,
                    month: FieldSpec::All,
                    day: FieldSpec::All,
                    hour: FieldSpec::Vals(one_of(0)),
                    minute: FieldSpec::Vals(one_of(0)),
                    second: FieldSpec::Vals(one_of(0)),
                },
            )
        } else if t == "monthly"@ {
            Ok(
                CalSpec {
                    dow: None,
                    year: Year::All,
                    month: FieldSpec::All,
                    day: FieldSpec::Vals(one_of(1)),
                    hour: FieldSpec::Vals(one_of(0)),
                    minute: FieldSpec::Vals(one_of(0)),
                    second: FieldSpec::Vals(one_of(0)),
                },
            )
        } else if t == "quarterly"@ {
            Ok(
                CalSpec {
                    dow: None,
                    year: Year::All,
                    month: FieldSpec::Vals(Set::new(|y: u8| y == 1 || y == 4 || y == 7 || y == 10)),
                    day: FieldSpec::Vals(one_of(1)),
                    hour: FieldSpec::Vals(one_of(0)),
                    minute: FieldSpec::Vals(one_of(0)),
                    second: FieldSpec::Vals(one_of(0)),
                },
            )
        } else if t == "semiannually"@ {
            Ok(
                CalSpec {
                    dow: None,
                    year: Year::All,
                    month: FieldSpec::Vals(Set::new(|y: u8| y == 1 || y == 7)),
                    day: FieldSpec::Vals(one_of(1)),
                    hour: FieldSpec::Vals(one_of(0)),
                    minute: FieldSpec::Vals(one_of(0)),
                    second: FieldSpec::Vals(one_of(0)),
                },
            )
        } else if t == "yearly"@ {
            Ok(
                CalSpec {
                    dow: None,
                    year: Year::All,
                    month: FieldSpec::Vals(one_of(1)),
                    day: FieldSpec::Vals(one_of(1)),
                    hour: FieldSpec::Vals(one_of(0)),
                    minute: FieldSpec::Vals(one_of(0)),
                    second: FieldSpec::Vals(one_of(0)),
                },
            )
        } else {
            spec_cal_parts(None, None, t)
        }
    } else {
        Err(ErrView::Calendar(s))
    }
}

/// The sorted vector holding one value.
fn vec_one(v: u8) -> (r: Vec<u8>)
    ensures
        strictly_sorted(r@),
        forall|y: u8| #[trigger] r@.contains(y) <==> one_of(v).contains(y),
        r@.len() == 1,
{
    let r: Vec<u8> = vec![v];
    proof {
        assert(forall|y: u8| r@.contains(y) <==> y == v) by {
            assert(r@[0] == v);
        }
    }
    r
}

/// Parse a calendar string into a realtime schedule.  Any `R` field has
/// been resolved to one concrete value in the result.
pub fn parse_calendar(calendar: &str) -> (r: Result<Realtime, Error>)
    ensures
        match spec_parse_calendar(calendar@) {
            Ok(c) => r is Ok && rt_conforms(r->Ok_0, c),
            Err(e) => r is Err && r->Err_0@ == e,
        },
{
    let cs = chars_of(calendar);
    let bounds = ws_bounds(&cs);
    let ghost parts = spec_split_ws(calendar@);
    if bounds.len() == 3 {
        let p0 = calendar.substring_char(bounds[0].0, bounds[0].1);
        let p1 = calendar.substring_char(bounds[1].0, bounds[1].1);
        let p2 = calendar.substring_char(bounds[2].0, bounds[2].1);
        proof {
            assert(p0@ == parts[0]);
            assert(p1@ == parts[1]);
            assert(p2@ == parts[2]);
        }
        let dw = match parse_day_of_week(p0) {
            Ok(d) => d,
            Err(e) => {
                return Err(e);
            },
        };
        let (year, month, day) = match parse_date(p1) {
            Ok(t) => t,
            Err(e) => {
                return Err(e);
            },
        };
        let (hour, minute, second) = match parse_hms(p2) {
            Ok(t) => t,
            Err(e) => {
                return Err(e);
            },
        };
        Ok(Realtime { day_of_week: dw, year, month, day, hour, minute, second })
    } else if bounds.len() == 2 {
        let p0 = calendar.substring_char(bounds[0].0, bounds[0].1);
        let p1 = calendar.substring_char(bounds[1].0, bounds[1].1);
        proof {
            assert(p0@ == parts[0]);
            assert(p1@ == parts[1]);
        }
        let (year, month, day) = match parse_date(p0) {
            Ok(t) => t,
            Err(e) => {
                return Err(e);
            },
        };
        let (hour, minute, second) = match parse_hms(p1) {
            Ok(t) => t,
            Err(e) => {
                return Err(e);
            },
        };
        Ok(Realtime { day_of_week: DayOfWeek::All, year, month, day, hour, minute, second })
    } else if bounds.len() == 1 {
        let tcs = subchars(&cs, bounds[0].0, bounds[0].1);
        proof {
            assert(tcs@ == parts[0]);
        }
        if chars_eq_str(&tcs, "minutely") {
            Ok(
                Realtime {
                    day_of_week: DayOfWeek::All,
                    year: Year::All,
                    month: Month::All,
                    day: Day::All,
                    hour: Hour::All,
                    minute: Minute::All,
                    second: Second::Seconds(vec_one(0)),
                },
            )
        } else if chars_eq_str(&tcs, "hourly") {
            Ok(
                Realtime {
                    day_of_week: DayOfWeek::All,
                    year: Year::All,
                    month: Month::All,
                    day: Day::All,
                    hour: Hour::All,
                    minute: Minute::Minutes(vec_one(0)),
                    second: Second::Seconds(vec_one(0)),
                },
            )
        } else if chars_eq_str(&tcs, "daily") {
            Ok(
                Realtime {
                    day_of_week: DayOfWeek::All,
                    year: Year::All,
                    month: Month::All,
                    day: Day::All,
                    hour: Hour::Hours(vec_one(0)),
                    minute: Minute::Minutes(vec_one(0)),
                    second: Second::Seconds(vec_one(0)),
                },
            )
        } else if chars_eq_str(&tcs, "weekly") {
            Ok(
                Realtime {
                    day_of_week: DayOfWeek::Days(vec_one(1)),
                    year: Year::All,
                    month: Month::All,
                    day: Day::All,
                    hour: Hour::Hours(vec_one(0)),
                    minute: Minute::Minutes(vec_one(0)),
                    second: Second::Seconds(vec_one(0)),
                },
            )
        } else if chars_eq_str(&tcs, "monthly") {
            Ok(
                Realtime {
                    day_of_week: DayOfWeek::All,
                    year: Year::All,
                    month: Month::All,
                    day: Day::Days(vec_one(1)),
                    hour: Hour::Hours(vec_one(0)),
                    minute: Minute::Minutes(vec_one(0)),
                    second: Second::Seconds(vec_one(0)),
                },
            )
        } else if chars_eq_str(&tcs, "quarterly") {
            let mut months: Vec<u8> = Vec::new();
            months.push(1);
            months.push(4);
            months.push(7);
            months.push(10);
            proof {
                assert(months@ =~= seq![1u8, 4u8, 7u8, 10u8]);
                assert(forall|y: u8|
                    #[trigger] months@.contains(y) <==> (y == 1 || y == 4 || y == 7 || y == 10))
                    by {
                    assert(months@[0] == 1u8 && months@[1] == 4u8 && months@[2] == 7u8
                        && months@[3] == 10u8);
                }
            }
            Ok(
                Realtime {
                    day_of_week: DayOfWeek::All,
                    year: Year::All,
                    month: Month::Months(months),
                    day: Day::Days(vec_one(1)),
                    hour: Hour::Hours(vec_one(0)),
                    minute: Minute::Minutes(vec_one(0)),
                    second: Second::Seconds(vec_one(0)),
                },
            )
        } else if chars_eq_str(&tcs, "semiannually") {
            let mut months: Vec<u8> = Vec::new();
            months.push(1);
            months.push(7);
            proof {
                assert(months@ =~= seq![1u8, 7u8]);
                assert(forall|y: u8| #[trigger] months@.contains(y) <==> (y == 1 || y == 7)) by {
                    assert(months@[0] == 1u8 && months@[1] == 7u8);
                }
            }
            Ok(
                Realtime {
                    day_of_week: DayOfWeek::All,
                    year: Year::All,
                    month: Month::Months(months),
                    day: Day::Days(vec_one(1)),
                    hour: Hour::Hours(vec_one(0)),
                    minute: Minute::Minutes(vec_one(0)),
                    second: Second::Seconds(vec_one(0)),
                },
            )
        } else if chars_eq_str(&tcs, "yearly") {
            Ok(
                Realtime {
                    day_of_week: DayOfWeek::All,
                    year: Year::All,
                    month: Month::Months(vec_one(1)),
                    day: Day::Days(vec_one(1)),
                    hour: Hour::Hours(vec_one(0)),
                    minute: Minute::Minutes(vec_one(0)),
                    second: Second::Seconds(vec_one(0)),
                },
            )
        } else {
            let p0 = calendar.substring_char(bounds[0].0, bounds[0].1);
            proof {
                assert(p0@ == parts[0]);
            }
            let (hour, minute, second) = match parse_hms(p0) {
                Ok(t) => t,
                Err(e) => {
                    return Err(e);
                },
            };
            Ok(
                Realtime {
                    day_of_week: DayOfWeek::All,
                    year: Year::All,
                    month: Month::All,
                    day: Day::All,
                    hour,
                    minute,
                    second,
                },
            )
        }
    } else {
        Err(Error::InvalidCalendar { calendar: calendar.to_owned() })
    }
}

} // verus!
