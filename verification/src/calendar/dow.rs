//! The day-of-week field of a calendar.  Weekday names accept the
//! three-letter and the full form, case-insensitively; Sunday is 0 and
//! Saturday is 6.

use vstd::prelude::*;

use crate::calendar::{
    contains_val, find_dotdot, insert_sorted_unique, range_vals, spec_find_dotdot, spec_split_char,
    split_bounds, strictly_sorted,
};
use crate::error::{ErrView, Error};
use crate::text::{chars_eq_str, chars_of, subchars};

verus! {

/// The day(s) of the week a realtime schedule runs on.
#[derive(Clone, Debug, PartialEq, Eq)]
pub enum DayOfWeek {
    /// Every day of the week.
    All,
    /// Specific days, Sunday being 0.
    Days(Vec<u8>),
}

impl DayOfWeek {
    /// Does the given weekday number fall in this field?
    pub open spec fn spec_matches(&self, given: u8) -> bool {
        match self {
            DayOfWeek::All => true,
            DayOfWeek::Days(days) => days@.contains(given),
        }
    }

    /// Does the given weekday number fall in this field?
    pub fn matches(&self, given: u8) -> (r: bool)
        ensures
            r == self.spec_matches(given),
    {
        match self {
            DayOfWeek::All => true,
            DayOfWeek::Days(days) => contains_val(days, given),
        }
    }
}

/// The ASCII lowercase of one character.
pub open spec fn spec_lower_char(c: char) -> char {
    if 65 <= c as u32 <= 90 {
        (((c as u32) + 32) as u8) as char
    } else {
        c
    }
}

/// The ASCII lowercase of a string.
pub open spec fn spec_lower(s: Seq<char>) -> Seq<char> {
    s.map_values(|c: char| spec_lower_char(c))
}

fn lower_char(c: char) -> (r: char)
    ensures
        r == spec_lower_char(c),
{
    let u = c as u32;
    if u >= 65 && u <= 90 {
        ((u + 32) as u8) as char
    } else {
        c
    }
}

fn lower_chars(cs: &Vec<char>) -> (r: Vec<char>)
    ensures
        r@ == spec_lower(cs@),
{
    let mut r: Vec<char> = Vec::new();
    let mut i: usize = 0;
    while i < cs.len()
        invariant
            i <= cs@.len(),
            r@.len() == i,
            forall|k: int| 0 <= k < i ==> r@[k] == spec_lower_char(cs@[k]),
        decreases cs@.len() - i,
    {
        r.push(lower_char(cs[i]));
        i += 1;
    }
    proof {
        assert(r@ =~= spec_lower(cs@));
    }
    r
}

/// The weekday number a name stands for, compared case-insensitively.
pub open spec fn spec_dow_value(s: Seq<char>) -> Option<u8> {
    let l = spec_lower(s);
    if l == "sun"@ || l == "sunday"@ {
        Some(0u8)
    } else if l == "mon"@ || l == "monday"@ {
        Some(1u8)
    } else if l == "tue"@ || l == "tuesday"@ {
        Some(2u8)
    } else if l == "wed"@ || l == "wednesday"@ {
        Some(3u8)
    } else if l == "thu"@ || l == "thursday"@ {
        Some(4u8)
    } else if l == "fri"@ || l == "friday"@ {
        Some(5u8)
    } else if l == "sat"@ || l == "saturday"@ {
        Some(6u8)
    } else {
        None
    }
}

/// Parse one weekday name.
pub fn parse_dow(cs: &Vec<char>) -> (r: Option<u8>)
    ensures
        r == spec_dow_value(cs@),
{
    let l = lower_chars(cs);
    if chars_eq_str(&l, "sun") || chars_eq_str(&l, "sunday") {
        Some(0)
    } else if chars_eq_str(&l, "mon") || chars_eq_str(&l, "monday") {
        Some(1)
    } else if chars_eq_str(&l, "tue") || chars_eq_str(&l, "tuesday") {
        Some(2)
    } else if chars_eq_str(&l, "wed") || chars_eq_str(&l, "wednesday") {
        Some(3)
    } else if chars_eq_str(&l, "thu") || chars_eq_str(&l, "thursday") {
        Some(4)
    } else if chars_eq_str(&l, "fri") || chars_eq_str(&l, "friday") {
        Some(5)
    } else if chars_eq_str(&l, "sat") || chars_eq_str(&l, "saturday") {
        Some(6)
    } else {
        None
    }
}

/// The set of weekdays one item allows: a name, or a range of names.
pub open spec fn spec_dow_item(item: Seq<char>) -> Result<Set<u8>, ErrView> {
    match spec_find_dotdot(item) {
        Some(j) => {
            let st = item.take(j);
            let en = item.skip(j + 2);
            match spec_dow_value(st) {
                None => Err(ErrView::Dow(st)),
                Some(a) => match spec_dow_value(en) {
                    None => Err(ErrView::Dow(en)),
                    Some(b) => {
                        if b < a {
                            Err(ErrView::Range(item))
                        } else {
                            Ok(Set::new(|y: u8| a <= y <= b))
                        }
                    },
                },
            }
        },
        None => match spec_dow_value(item) {
            None => Err(ErrView::Dow(item)),
            Some(v) => Ok(Set::new(|y: u8| y == v)),
        },
    }
}

/// The union of the items' sets, or the first error among them.
pub open spec fn spec_dow_items(parts: Seq<Seq<char>>) -> Result<Set<u8>, ErrView>
    decreases parts.len(),
{
    if parts.len() == 0 {
        Ok(Set::empty())
    } else {
        match spec_dow_item(parts[0]) {
            Err(e) => Err(e),
            Ok(st) => match spec_dow_items(parts.drop_first()) {
                Err(e) => Err(e),
                Ok(rest) => Ok(st.union(rest)),
            },
        }
    }
}

/// What a day-of-week field allows: every day, or a set of days.
pub open spec fn spec_parse_day_of_week(s: Seq<char>) -> Result<Option<Set<u8>>, ErrView> {
    if s == "*"@ {
        Ok(None)
    } else {
        match spec_dow_items(spec_split_char(s, ',')) {
            Ok(st) => Ok(Some(st)),
            Err(e) => Err(e),
        }
    }
}

/// Parse one item of a day-of-week field into the sorted vector of the days
/// it allows.
fn parse_dow_item(tok: &str) -> (r: Result<Vec<u8>, Error>)
    ensures
        match spec_dow_item(tok@) {
            Ok(st) => {
                &&& r is Ok
                &&& strictly_sorted(r->Ok_0@)
                &&& forall|y: u8| #[trigger] r->Ok_0@.contains(y) <==> st.contains(y)
            },
            Err(e) => r is Err && r->Err_0@ == e,
        },
{
    let cs = chars_of(tok);
    let n = cs.len();
    match find_dotdot(&cs) {
        Some(j) => {
            let stcs = subchars(&cs, 0, j);
            let encs = subchars(&cs, j + 2, n);
            proof {
                assert(stcs@ =~= tok@.take(j as int));
                assert(encs@ =~= tok@.skip(j + 2));
            }
            let a = match parse_dow(&stcs) {
                Some(a) => a,
                None => {
                    return Err(
                        Error::InvalidDayOfWeek { dow: tok.substring_char(0, j).to_owned() },
                    );
                },
            };
            let b = match parse_dow(&encs) {
                Some(b) => b,
                None => {
                    return Err(
                        Error::InvalidDayOfWeek { dow: tok.substring_char(j + 2, n).to_owned() },
                    );
                },
            };
            if b < a {
                return Err(Error::InvalidRange { range: tok.to_owned() });
            }
            Ok(range_vals(a, b))
        },
        None => {
            match parse_dow(&cs) {
                Some(v) => {
                    let r: Vec<u8> = vec![v];
                    proof {
                        assert(forall|y: u8| r@.contains(y) <==> y == v) by {
                            assert(r@[0] == v);
                        }
                    }
                    Ok(r)
                },
                None => Err(Error::InvalidDayOfWeek { dow: tok.to_owned() }),
            }
        },
    }
}

/// Parse the day-of-week part of a calendar string.
pub fn parse_day_of_week(dowish: &str) -> (r: Result<DayOfWeek, Error>)
    ensures
        match spec_parse_day_of_week(dowish@) {
            Ok(None) => r is Ok && r->Ok_0 is All,
            Ok(Some(st)) => {
                &&& r is Ok
                &&& r->Ok_0 is Days
                &&& strictly_sorted(r->Ok_0->Days_0@)
                &&& forall|y: u8| #[trigger] r->Ok_0->Days_0@.contains(y) <==> st.contains(y)
            },
            Err(e) => r is Err && r->Err_0@ == e,
        },
{
    let cs = chars_of(dowish);
    if chars_eq_str(&cs, "*") {
        return Ok(DayOfWeek::All);
    }
    let ghost parts = spec_split_char(dowish@, ',');
    let bounds = split_bounds(&cs, ',');
    let mut acc: Vec<u8> = Vec::new();
    let ghost accset = Set::<u8>::empty();
    let mut i: usize = 0;
    proof {
        assert(parts.skip(0) =~= parts);
        if spec_dow_items(parts) is Ok {
            assert(accset.union(spec_dow_items(parts)->Ok_0) =~= spec_dow_items(parts)->Ok_0);
        }
    }
    while i < bounds.len()
        invariant
            i <= bounds@.len(),
            cs@ == dowish@,
            dowish@ != "*"@,
            parts == spec_split_char(dowish@, ','),
            bounds@.len() == parts.len(),
            forall|t: int|
                0 <= t < bounds@.len() ==> {
                    &&& #[trigger] bounds@[t].0 <= bounds@[t].1 <= dowish@.len()
                    &&& dowish@.subrange(bounds@[t].0 as int, bounds@[t].1 as int) == parts[t]
                },
            strictly_sorted(acc@),
            forall|y: u8| #[trigger] acc@.contains(y) <==> accset.contains(y),
            spec_dow_items(parts) == match spec_dow_items(parts.skip(i as int)) {
                Err(e) => Err::<Set<u8>, ErrView>(e),
                Ok(rest) => Ok::<Set<u8>, ErrView>(accset.union(rest)),
            },
        decreases bounds@.len() - i,
    {
        let (lo, hi) = (bounds[i].0, bounds[i].1);
        let part = dowish.substring_char(lo, hi);
        proof {
            assert(part@ == parts[i as int]);
            assert(parts.skip(i as int)[0] == parts[i as int]);
            assert(parts.skip(i as int).drop_first() =~= parts.skip(i + 1));
        }
        match parse_dow_item(part) {
            Ok(vals) => {
                let ghost itemset = spec_dow_item(parts[i as int])->Ok_0;
                let mut t: usize = 0;
                while t < vals.len()
                    invariant
                        t <= vals@.len(),
                        strictly_sorted(vals@),
                        forall|y: u8| #[trigger] vals@.contains(y) <==> itemset.contains(y),
                        strictly_sorted(acc@),
                        forall|y: u8| #[trigger] acc@.contains(y) <==> accset.union(
                            vals@.take(t as int).to_set(),
                        ).contains(y),
                    decreases vals@.len() - t,
                {
                    let ghost taken = vals@.take(t as int);
                    insert_sorted_unique(&mut acc, vals[t]);
                    proof {
                        assert(vals@.take(t + 1) =~= taken.push(vals@[t as int]));
                        assert(forall|y: u8|
                            #[trigger] vals@.take(t + 1).to_set().contains(y) <==> (
                            taken.to_set().contains(y) || y == vals@[t as int])) by {
                            assert(forall|y: u8|
                                #[trigger] vals@.take(t + 1).contains(y) <==> (taken.contains(y)
                                    || y == vals@[t as int])) by {
                                assert(forall|q: int|
                                    0 <= q < taken.len() ==> vals@.take(t + 1)[q] == taken[q]);
                                assert(vals@.take(t + 1).last() == vals@[t as int]);
                                assert(forall|q: int|
                                    0 <= q < vals@.take(t + 1).len() ==> (q < taken.len()
                                        || #[trigger] vals@.take(t + 1)[q] == vals@[t as int]));
                            }
                        }
                    }
                    t += 1;
                }
                proof {
                    assert(vals@.take(vals@.len() as int) =~= vals@);
                    assert(accset.union(vals@.to_set()) =~= accset.union(itemset)) by {
                        assert(forall|y: u8|
                            #[trigger] vals@.to_set().contains(y) <==> vals@.contains(y));
                    }
                    assert(forall|y: u8|
                        #[trigger] acc@.contains(y) <==> accset.union(itemset).contains(y));
                    assert(spec_dow_items(parts) == match spec_dow_items(parts.skip(i + 1)) {
                        Err(e) => Err::<Set<u8>, ErrView>(e),
                        Ok(rest) => Ok::<Set<u8>, ErrView>(accset.union(itemset).union(rest)),
                    }) by {
                        if spec_dow_items(parts.skip(i + 1)) is Ok {
                            let rest = spec_dow_items(parts.skip(i + 1))->Ok_0;
                            assert(accset.union(itemset.union(rest)) =~= accset.union(
                                itemset,
                            ).union(rest));
                        }
                    }
                }
                proof {
                    accset = accset.union(itemset);
                }
                i += 1;
            },
            Err(e) => {
                proof {
                    assert(spec_dow_item(parts[i as int]) == Err::<Set<u8>, ErrView>(e@));
                    assert(spec_dow_items(parts.skip(i as int)) == Err::<Set<u8>, ErrView>(e@));
                    assert(spec_dow_items(parts) == Err::<Set<u8>, ErrView>(e@));
                }
                return Err(e);
            },
        }
    }
    proof {
        assert(parts.skip(bounds@.len() as int) =~= Seq::<Seq<char>>::empty());
        assert(spec_dow_items(parts) == Ok::<Set<u8>, ErrView>(accset.union(Set::empty())));
        assert(accset.union(Set::empty()) =~= accset);
    }
    Ok(DayOfWeek::Days(acc))
}

} // verus!
