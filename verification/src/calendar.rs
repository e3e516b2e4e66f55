//! Shared machinery of the calendar parser: locating separators, splitting
//! a string into fields, and building the sorted sets of values that a
//! calendar field allows.
//!
//! A field such as `3..7,10,0,14..18/2` is a comma-separated list of items;
//! each item is a single value `a`, a range `a..b`, or a stepped repetition
//! `a/n` or `a..b/n`.  The set a field allows is the union of its items'
//! sets.  `*` allows every value and `R` resolves, at parse time, to one
//! uniformly drawn value.

use vstd::prelude::*;

use crate::error::{Error, ErrView};
use crate::rng::rand_range;
use crate::text::{
    chars_eq_str, chars_of, parse_u8_chars, spec_digits_val, spec_is_u8_token, spec_u8_str,
    subchars, u8_to_string,
};

pub mod dow;
pub mod hms;
pub mod realtime;
pub mod ymd;

verus! {

/// What a parsed calendar field allows, before the random marker is
/// resolved: every value, one random value, or an explicit set.
pub enum FieldSpec {
    All,
    Rand,
    Vals(Set<u8>),
}

// ---------------------------------------------------------------------------
// Finding separators
// ---------------------------------------------------------------------------
/// The index of the first occurrence of `c` in `s`.
pub open spec fn spec_find_char(s: Seq<char>, c: char) -> Option<int>
    decreases s.len(),
{
    if s.len() == 0 {
        None
    } else if s[0] == c {
        Some(0)
    } else {
        match spec_find_char(s.drop_first(), c) {
            None => None,
            Some(i) => Some(i + 1),
        }
    }
}

proof fn lemma_find_char_some(s: Seq<char>, c: char, j: int)
    requires
        0 <= j < s.len(),
        s[j] == c,
        forall|k: int| 0 <= k < j ==> s[k] != c,
    ensures
        spec_find_char(s, c) == Some(j),
    decreases s.len(),
{
    if j > 0 {
        lemma_find_char_some(s.drop_first(), c, j - 1);
    }
}

proof fn lemma_find_char_none(s: Seq<char>, c: char)
    requires
        forall|k: int| 0 <= k < s.len() ==> s[k] != c,
    ensures
        spec_find_char(s, c) == None::<int>,
    decreases s.len(),
{
    if s.len() > 0 {
        lemma_find_char_none(s.drop_first(), c);
    }
}

/// Find the first occurrence of `c` in `cs`.
pub fn find_char(cs: &Vec<char>, c: char) -> (r: Option<usize>)
    ensures
        match r {
            Some(i) => spec_find_char(cs@, c) == Some(i as int) && i < cs@.len(),
            None => spec_find_char(cs@, c) == None::<int>,
        },
{
    let mut i: usize = 0;
    while i < cs.len()
        invariant
            i <= cs@.len(),
            forall|k: int| 0 <= k < i ==> cs@[k] != c,
        decreases cs@.len() - i,
    {
        if cs[i] == c {
            proof {
                lemma_find_char_some(cs@, c, i as int);
            }
            return Some(i);
        }
        i += 1;
    }
    proof {
        lemma_find_char_none(cs@, c);
    }
    None
}

/// Does `s` hold `..` starting at `i`?
pub open spec fn spec_dotdot_at(s: Seq<char>, i: int) -> bool {
    0 <= i && i + 2 <= s.len() && s[i] == '.' && s[i + 1] == '.'
}

/// The index of the first `..` in `s`.
pub open spec fn spec_find_dotdot(s: Seq<char>) -> Option<int>
    decreases s.len(),
{
    if s.len() < 2 {
        None
    } else if s[0] == '.' && s[1] == '.' {
        Some(0)
    } else {
        match spec_find_dotdot(s.drop_first()) {
            None => None,
            Some(i) => Some(i + 1),
        }
    }
}

proof fn lemma_find_dotdot_some(s: Seq<char>, j: int)
    requires
        spec_dotdot_at(s, j),
        forall|k: int| 0 <= k < j ==> !spec_dotdot_at(s, k),
    ensures
        spec_find_dotdot(s) == Some(j),
    decreases s.len(),
{
    if j > 0 {
        assert(forall|k: int| 0 <= k < j - 1 ==> !spec_dotdot_at(s.drop_first(), k)) by {
            assert(forall|k: int|
                0 <= k < j - 1 ==> (spec_dotdot_at(s.drop_first(), k) ==> spec_dotdot_at(
                    s,
                    k + 1,
                )));
        }
        assert(spec_dotdot_at(s.drop_first(), j - 1));
        lemma_find_dotdot_some(s.drop_first(), j - 1);
        assert(!spec_dotdot_at(s, 0));
    }
}

proof fn lemma_find_dotdot_none(s: Seq<char>)
    requires
        forall|k: int| 0 <= k ==> !spec_dotdot_at(s, k),
    ensures
        spec_find_dotdot(s) == None::<int>,
    decreases s.len(),
{
    if s.len() >= 2 {
        assert(forall|k: int| 0 <= k ==> !spec_dotdot_at(s.drop_first(), k)) by {
            assert(forall|k: int|
                0 <= k ==> (spec_dotdot_at(s.drop_first(), k) ==> spec_dotdot_at(s, k + 1)));
        }
        lemma_find_dotdot_none(s.drop_first());
        assert(!spec_dotdot_at(s, 0));
    }
}

/// Find the first `..` in `cs`.
pub fn find_dotdot(cs: &Vec<char>) -> (r: Option<usize>)
    ensures
        match r {
            Some(i) => spec_find_dotdot(cs@) == Some(i as int) && i + 2 <= cs@.len(),
            None => spec_find_dotdot(cs@) == None::<int>,
        },
{
    if cs.len() < 2 {
        proof {
            assert(forall|k: int| 0 <= k ==> !spec_dotdot_at(cs@, k));
            lemma_find_dotdot_none(cs@);
        }
        return None;
    }
    let mut i: usize = 0;
    while i < cs.len() - 1
        invariant
            cs@.len() >= 2,
            i <= cs@.len() - 1,
            forall|k: int| 0 <= k < i ==> !spec_dotdot_at(cs@, k),
        decreases cs@.len() - i,
    {
        if cs[i] == '.' && cs[i + 1] == '.' {
            proof {
                lemma_find_dotdot_some(cs@, i as int);
            }
            return Some(i);
        }
        i += 1;
    }
    proof {
        assert(forall|k: int| 0 <= k ==> !spec_dotdot_at(cs@, k));
        lemma_find_dotdot_none(cs@);
    }
    None
}

// ---------------------------------------------------------------------------
// Splitting on a separator
// ---------------------------------------------------------------------------
/// `s` split on every occurrence of `sep`; empty parts are kept, and the
/// result always has at least one part.
pub open spec fn spec_split_char(s: Seq<char>, sep: char) -> Seq<Seq<char>>
    decreases s.len(),
    via spec_split_char_decreases
{
    match spec_find_char(s, sep) {
        None => seq![s],
        Some(i) => seq![s.take(i)] + spec_split_char(s.skip(i + 1), sep),
    }
}

#[via_fn]
proof fn spec_split_char_decreases(s: Seq<char>, sep: char) {
    lemma_find_char_in_range(s, sep);
}

proof fn lemma_find_char_in_range(s: Seq<char>, c: char)
    ensures
        match spec_find_char(s, c) {
            Some(i) => 0 <= i < s.len() && s[i] == c,
            None => true,
        },
    decreases s.len(),
{
    if s.len() > 0 && s[0] != c {
        lemma_find_char_in_range(s.drop_first(), c);
    }
}

/// The boundaries of the parts of `cs` split on `sep`: pairs of start and
/// end index, one per part.
#[verifier::spinoff_prover]
#[verifier::rlimit(30)]
pub fn split_bounds(cs: &Vec<char>, sep: char) -> (r: Vec<(usize, usize)>)
    ensures
        ({
            let parts = spec_split_char(cs@, sep);
            &&& r@.len() == parts.len()
            &&& forall|i: int|
                0 <= i < r@.len() ==> {
                    &&& #[trigger] r@[i].0 <= r@[i].1 <= cs@.len()
                    &&& cs@.subrange(r@[i].0 as int, r@[i].1 as int) == parts[i]
                }
        }),
{
    let ghost full = cs@;
    let mut r: Vec<(usize, usize)> = Vec::new();
    let mut p: usize = 0;
    proof {
        assert(cs@.skip(0) =~= cs@);
        assert(r@.map_values(|b: (usize, usize)| cs@.subrange(b.0 as int, b.1 as int))
            =~= Seq::<Seq<char>>::empty());
    }
    loop
        invariant
            p <= cs@.len(),
            spec_split_char(cs@, sep) =~= r@.map_values(
                |b: (usize, usize)| cs@.subrange(b.0 as int, b.1 as int),
            ) + spec_split_char(cs@.skip(p as int), sep),
            forall|i: int|
                0 <= i < r@.len() ==> #[trigger] r@[i].0 <= r@[i].1 <= cs@.len(),
        decreases cs@.len() - p,
    {
        // scan for the next separator at or after p
        let mut k: usize = p;
        while k < cs.len() && cs[k] != sep
            invariant
                p <= k <= cs@.len(),
                forall|t: int| p <= t < k ==> cs@[t] != sep,
            decreases cs@.len() - k,
        {
            k += 1;
        }
        let ghost tail = cs@.skip(p as int);
        if k < cs.len() {
            // separator found at k
            proof {
                assert(tail[k - p] == cs@[k as int]);
                assert(forall|t: int| 0 <= t < k - p ==> tail[t] == cs@[t + p] && tail[t] != sep);
                lemma_find_char_some(tail, sep, k - p);
                assert(tail.take(k - p) =~= cs@.subrange(p as int, k as int));
                assert(tail.skip(k - p + 1) =~= cs@.skip(k + 1));
            }
            r.push((p, k));
            proof {
                assert(spec_split_char(tail, sep) == seq![cs@.subrange(p as int, k as int)]
                    + spec_split_char(cs@.skip(k + 1), sep));
                assert(r@.map_values(|b: (usize, usize)| cs@.subrange(b.0 as int, b.1 as int))
                    =~= r@.drop_last().map_values(
                    |b: (usize, usize)| cs@.subrange(b.0 as int, b.1 as int),
                ).push(cs@.subrange(p as int, k as int)));
            }
            p = k + 1;
        } else {
            // no separator in the rest: the final part
            proof {
                assert(forall|t: int| 0 <= t < tail.len() ==> tail[t] == cs@[t + p]);
                lemma_find_char_none(tail, sep);
                assert(tail.take(tail.len() as int) =~= cs@.subrange(p as int, cs@.len() as int));
                assert(spec_split_char(tail, sep) == seq![tail]);
                assert(tail =~= cs@.subrange(p as int, cs@.len() as int));
            }
            r.push((p, cs.len()));
            proof {
                let f = |b: (usize, usize)| cs@.subrange(b.0 as int, b.1 as int);
                assert(r@.map_values(f) =~= r@.drop_last().map_values(f).push(tail));
                let parts = spec_split_char(cs@, sep);
                assert(parts =~= r@.map_values(f));
                assert(r@.len() == parts.len());
                assert forall|i: int| 0 <= i < r@.len() implies {
                    &&& #[trigger] r@[i].0 <= r@[i].1 <= cs@.len()
                    &&& cs@.subrange(r@[i].0 as int, r@[i].1 as int) == parts[i]
                } by {
                    assert(parts[i] == r@.map_values(f)[i]);
                    assert(r@.map_values(f)[i] == f(r@[i]));
                }
            }
            return r;
        }
    }
}

// ---------------------------------------------------------------------------
// Sorted value vectors
// ---------------------------------------------------------------------------
/// The entries of `s` are strictly increasing (so also free of duplicates).
pub open spec fn strictly_sorted(s: Seq<u8>) -> bool {
    forall|i: int, j: int| 0 <= i < j < s.len() ==> s[i] < s[j]
}

/// Insert `x` into the strictly sorted vector `v`, keeping it strictly
/// sorted; a value already present is left alone.
pub fn insert_sorted_unique(v: &mut Vec<u8>, x: u8)
    requires
        strictly_sorted(old(v)@),
    ensures
        strictly_sorted(final(v)@),
        forall|y: u8| final(v)@.contains(y) <==> (old(v)@.contains(y) || y == x),
{
    let mut i: usize = 0;
    while i < v.len() && v[i] < x
        invariant
            i <= v@.len(),
            strictly_sorted(v@),
            forall|k: int| 0 <= k < i ==> v@[k] < x,
        decreases v@.len() - i,
    {
        i += 1;
    }
    if i < v.len() && v[i] == x {
        proof {
            assert(v@.contains(x));
        }
        return;
    }
    proof {
        assert(forall|k: int| i <= k < v@.len() ==> v@[k] > x);
    }
    let ghost oldv = v@;
    v.insert(i, x);
    proof {
        assert(forall|k: int| 0 <= k < i ==> v@[k] == oldv[k]);
        assert(v@[i as int] == x);
        assert(forall|k: int| i < k < v@.len() ==> v@[k] == oldv[k - 1]);
        assert(strictly_sorted(v@));
        assert(forall|y: u8| oldv.contains(y) ==> v@.contains(y)) by {
            assert(forall|k: int|
                0 <= k < oldv.len() ==> v@[if k < i {
                    k
                } else {
                    k + 1
                }] == oldv[k]);
        }
        assert(forall|y: u8| v@.contains(y) ==> (oldv.contains(y) || y == x)) by {
            assert(forall|k: int|
                0 <= k < v@.len() && k != i ==> oldv[if k < i {
                    k
                } else {
                    k - 1
                }] == v@[k]);
        }
    }
}

/// The strictly sorted vector of all values in `a ..= b`.
pub fn range_vals(a: u8, b: u8) -> (r: Vec<u8>)
    requires
        a <= b,
    ensures
        strictly_sorted(r@),
        forall|y: u8| r@.contains(y) <==> a <= y <= b,
{
    let mut r: Vec<u8> = Vec::new();
    let mut x: u8 = a;
    loop
        invariant_except_break
            a <= x <= b,
            strictly_sorted(r@),
            forall|k: int| 0 <= k < r@.len() ==> r@[k] < x,
            forall|y: u8| r@.contains(y) <==> a <= y < x,
        ensures
            strictly_sorted(r@),
            forall|y: u8| r@.contains(y) <==> a <= y <= b,
        decreases b - x,
    {
        let ghost oldr = r@;
        r.push(x);
        proof {
            assert(forall|k: int| 0 <= k < oldr.len() ==> r@[k] == oldr[k]);
            assert(r@.last() == x);
            assert(forall|y: u8| #[trigger] r@.contains(y) <==> (oldr.contains(y) || y == x)) by {
                assert(forall|k: int| 0 <= k < r@.len() ==> (k < oldr.len() || r@[k] == x));
            }
            assert(strictly_sorted(r@));
        }
        if x == b {
            proof {
                assert(forall|y: u8| #[trigger] r@.contains(y) <==> a <= y <= b);
            }
            break;
        }
        x += 1;
    }
    r
}

/// The strictly sorted vector of the values `a, a + n, a + 2n, ...` that are
/// at most `b`.
pub fn step_vals(a: u8, b: u8, n: u8) -> (r: Vec<u8>)
    requires
        n > 0,
    ensures
        strictly_sorted(r@),
        forall|y: u8| r@.contains(y) <==> (a <= y <= b && (y - a) % (n as int) == 0),
{
    let mut r: Vec<u8> = Vec::new();
    if a > b {
        return r;
    }
    let mut x: u8 = a;
    proof {
        assert((x - a) % (n as int) == 0) by (nonlinear_arith)
            requires
                x == a,
                n > 0,
        ;
    }
    loop
        invariant_except_break
            a <= x <= b,
            n > 0,
            (x - a) % (n as int) == 0,
            strictly_sorted(r@),
            forall|k: int| 0 <= k < r@.len() ==> r@[k] < x,
            forall|y: u8| r@.contains(y) <==> (a <= y < x && (y - a) % (n as int) == 0),
        ensures
            strictly_sorted(r@),
            forall|y: u8| r@.contains(y) <==> (a <= y <= b && (y - a) % (n as int) == 0),
        decreases b - x,
    {
        let ghost oldr = r@;
        r.push(x);
        proof {
            assert(forall|k: int| 0 <= k < oldr.len() ==> r@[k] == oldr[k]);
            assert(r@.last() == x);
            assert(forall|y: u8| #[trigger] r@.contains(y) <==> (oldr.contains(y) || y == x)) by {
                assert(forall|k: int| 0 <= k < r@.len() ==> (k < oldr.len() || r@[k] == x));
            }
            assert(strictly_sorted(r@));
            // no further multiple of the step lands strictly between x and x + n
            assert forall|y: u8| #![trigger (y - a) % (n as int)]
                x < y < x + n implies (y - a) % (n as int) != 0 by {
                assert((y - a) % (n as int) != 0) by (nonlinear_arith)
                    requires
                        a <= x < y < x + n,
                        n > 0,
                        (x - a) % (n as int) == 0,
                ;
            }
        }
        if b - x < n {
            proof {
                assert(forall|y: u8|
                    #[trigger] r@.contains(y) <==> (a <= y <= b && (y - a) % (n as int) == 0));
            }
            break;
        }
        proof {
            assert(((x + n) - a) % (n as int) == 0) by (nonlinear_arith)
                requires
                    a <= x,
                    n > 0,
                    (x - a) % (n as int) == 0,
            ;
        }
        x += n;
    }
    r
}

/// Is `x` among the values of `v`?
pub fn contains_val(v: &Vec<u8>, x: u8) -> (r: bool)
    ensures
        r == v@.contains(x),
{
    let mut i: usize = 0;
    while i < v.len()
        invariant
            i <= v@.len(),
            forall|k: int| 0 <= k < i ==> v@[k] != x,
        decreases v@.len() - i,
    {
        if v[i] == x {
            return true;
        }
        i += 1;
    }
    false
}

// ---------------------------------------------------------------------------
// Items: a single value, a range, or a stepped repetition
// ---------------------------------------------------------------------------
/// The `u8` a digit string names.
pub open spec fn spec_u8_of(s: Seq<char>) -> u8
    recommends
        spec_is_u8_token(s),
{
    spec_digits_val(s) as u8
}

/// The set of values one item of a calendar field allows, or the error the
/// item is rejected with.
pub open spec fn spec_item(item: Seq<char>, max: u8, one_based: bool) -> Result<Set<u8>, ErrView> {
    match spec_find_char(item, '/') {
        Some(k) => {
            let before = item.take(k);
            let ntok = item.skip(k + 1);
            if !spec_is_u8_token(ntok) {
                Err(ErrView::Value(ntok))
            } else {
                let n = spec_u8_of(ntok);
                if n == 0 {
                    Err(ErrView::Range(item))
                } else {
                    match spec_find_dotdot(before) {
                        Some(j) => {
                            let st = before.take(j);
                            let en = before.skip(j + 2);
                            if !spec_is_u8_token(st) {
                                Err(ErrView::Value(st))
                            } else if !spec_is_u8_token(en) {
                                Err(ErrView::Value(en))
                            } else {
                                let a = spec_u8_of(st);
                                let b = spec_u8_of(en);
                                if b < a || b >= max {
                                    Err(ErrView::Range(spec_u8_str(a) + ".."@ + spec_u8_str(b)))
                                } else {
                                    Ok(
                                        Set::new(
                                            |y: u8| a <= y <= b && (y - a) % (n as int) == 0,
                                        ),
                                    )
                                }
                            }
                        },
                        None => {
                            if !spec_is_u8_token(before) {
                                Err(ErrView::Value(before))
                            } else {
                                let a = spec_u8_of(before);
                                Ok(Set::new(|y: u8| a <= y < max && (y - a) % (n as int) == 0))
                            }
                        },
                    }
                }
            }
        },
        None => match spec_find_dotdot(item) {
            Some(j) => {
                let st = item.take(j);
                let en = item.skip(j + 2);
                if !spec_is_u8_token(st) {
                    Err(ErrView::Value(st))
                } else if !spec_is_u8_token(en) {
                    Err(ErrView::Value(en))
                } else {
                    let a = spec_u8_of(st);
                    let b = spec_u8_of(en);
                    if b < a || (one_based && a == 0) || (if one_based {
                        b > max
                    } else {
                        b >= max
                    }) {
                        Err(ErrView::Range(item))
                    } else {
                        Ok(Set::new(|y: u8| a <= y <= b))
                    }
                }
            },
            None => {
                if spec_is_u8_token(item) {
                    Ok(Set::new(|y: u8| y == spec_u8_of(item)))
                } else {
                    Err(ErrView::Value(item))
                }
            },
        },
    }
}

/// Parse one item of a calendar field into the sorted vector of the values
/// it allows.
pub fn parse_item(tok: &str, max: u8, one_based: bool) -> (r: Result<Vec<u8>, Error>)
    ensures
        match spec_item(tok@, max, one_based) {
            Ok(st) => {
                &&& r is Ok
                &&& strictly_sorted(r->Ok_0@)
                &&& forall|y: u8| #[trigger] r->Ok_0@.contains(y) <==> st.contains(y)
            },
            Err(e) => r is Err && r->Err_0@ == e,
        },
{
    let cs = chars_of(tok);
    let n_chars = cs.len();
    match find_char(&cs, '/') {
        Some(k) => {
            let ghost before = tok@.take(k as int);
            let ghost ntok_g = tok@.skip(k + 1);
            let ncs = subchars(&cs, k + 1, n_chars);
            proof {
                assert(ncs@ =~= ntok_g);
            }
            let n = match parse_u8_chars(&ncs) {
                Some(n) => n,
                None => {
                    return Err(
                        Error::InvalidValue { value: tok.substring_char(k + 1, n_chars).to_owned() },
                    );
                },
            };
            if n == 0 {
                return Err(Error::InvalidRange { range: tok.to_owned() });
            }
            let bcs = subchars(&cs, 0, k);
            proof {
                assert(bcs@ =~= before);
            }
            match find_dotdot(&bcs) {
                Some(j) => {
                    let stcs = subchars(&bcs, 0, j);
                    let encs = subchars(&bcs, j + 2, k);
                    proof {
                        assert(stcs@ =~= before.take(j as int));
                        assert(encs@ =~= before.skip(j + 2));
                        assert(tok@.subrange(0, j as int) =~= before.take(j as int));
                        assert(tok@.subrange(j + 2, k as int) =~= before.skip(j + 2));
                    }
                    let a = match parse_u8_chars(&stcs) {
                        Some(a) => a,
                        None => {
                            return Err(
                                Error::InvalidValue { value: tok.substring_char(0, j).to_owned() },
                            );
                        },
                    };
                    let b = match parse_u8_chars(&encs) {
                        Some(b) => b,
                        None => {
                            return Err(
                                Error::InvalidValue {
                                    value: tok.substring_char(j + 2, k).to_owned(),
                                },
                            );
                        },
                    };
                    if b < a || b >= max {
                        let mut msg = u8_to_string(a);
                        msg.append("..");
                        let bs = u8_to_string(b);
                        msg.append(bs.as_str());
                        return Err(Error::InvalidRange { range: msg });
                    }
                    Ok(step_vals(a, b, n))
                },
                None => {
                    let a = match parse_u8_chars(&bcs) {
                        Some(a) => a,
                        None => {
                            return Err(
                                Error::InvalidValue { value: tok.substring_char(0, k).to_owned() },
                            );
                        },
                    };
                    if a >= max {
                        let r: Vec<u8> = Vec::new();
                        return Ok(r);
                    }
                    Ok(step_vals(a, max - 1, n))
                },
            }
        },
        None => {
            match find_dotdot(&cs) {
                Some(j) => {
                    let stcs = subchars(&cs, 0, j);
                    let encs = subchars(&cs, j + 2, n_chars);
                    proof {
                        assert(stcs@ =~= tok@.take(j as int));
                        assert(encs@ =~= tok@.skip(j + 2));
                    }
                    let a = match parse_u8_chars(&stcs) {
                        Some(a) => a,
                        None => {
                            return Err(
                                Error::InvalidValue { value: tok.substring_char(0, j).to_owned() },
                            );
                        },
                    };
                    let b = match parse_u8_chars(&encs) {
                        Some(b) => b,
                        None => {
                            return Err(
                                Error::InvalidValue {
                                    value: tok.substring_char(j + 2, n_chars).to_owned(),
                                },
                            );
                        },
                    };
                    let bad = if one_based {
                        b < a || a == 0 || b > max
                    } else {
                        b < a || b >= max
                    };
                    if bad {
                        return Err(Error::InvalidRange { range: tok.to_owned() });
                    }
                    Ok(range_vals(a, b))
                },
                None => {
                    match parse_u8_chars(&cs) {
                        Some(v) => {
                            let r: Vec<u8> = vec![v];
                            proof {
                                assert(forall|y: u8| r@.contains(y) <==> y == v) by {
                                    assert(r@[0] == v);
                                }
                            }
                            Ok(r)
                        },
                        None => Err(Error::InvalidValue { value: tok.to_owned() }),
                    }
                },
            }
        },
    }
}

// ---------------------------------------------------------------------------
// A whole field: comma-separated items, `*`, or `R`
// ---------------------------------------------------------------------------
/// The union of the items' sets, or the first error among them.
pub open spec fn spec_items(parts: Seq<Seq<char>>, max: u8, one_based: bool) -> Result<
    Set<u8>,
    ErrView,
>
    decreases parts.len(),
{
    if parts.len() == 0 {
        Ok(Set::empty())
    } else {
        match spec_item(parts[0], max, one_based) {
            Err(e) => Err(e),
            Ok(st) => match spec_items(parts.drop_first(), max, one_based) {
                Err(e) => Err(e),
                Ok(rest) => Ok(st.union(rest)),
            },
        }
    }
}

/// What a whole calendar field allows, or the error it is rejected with.
pub open spec fn spec_chunk(s: Seq<char>, max: u8, one_based: bool) -> Result<FieldSpec, ErrView> {
    if s == "*"@ {
        Ok(FieldSpec::All)
    } else if s == "R"@ {
        Ok(FieldSpec::Rand)
    } else {
        match spec_items(spec_split_char(s, ','), max, one_based) {
            Ok(st) => Ok(FieldSpec::Vals(st)),
            Err(e) => Err(e),
        }
    }
}

/// A parsed calendar field: every value, or an explicit sorted set.
pub enum ChunkValues {
    All,
    Vals(Vec<u8>),
}

/// Parse a whole calendar field.  `max` bounds ranges, `one_based` says
/// whether the field counts from one, and an `R` resolves to one random
/// value in `rlo..rhi`.
pub fn parse_chunk(tok: &str, max: u8, one_based: bool, rlo: u8, rhi: u8) -> (r: Result<
    ChunkValues,
    Error,
>)
    requires
        rlo < rhi,
    ensures
        match spec_chunk(tok@, max, one_based) {
            Ok(FieldSpec::All) => r is Ok && r->Ok_0 is All,
            Ok(FieldSpec::Rand) => r is Ok && r->Ok_0 is Vals && r->Ok_0->Vals_0@.len() == 1 && rlo
                <= r->Ok_0->Vals_0@[0] < rhi,
            Ok(FieldSpec::Vals(st)) => {
                &&& r is Ok
                &&& r->Ok_0 is Vals
                &&& strictly_sorted(r->Ok_0->Vals_0@)
                &&& forall|y: u8| #[trigger] r->Ok_0->Vals_0@.contains(y) <==> st.contains(y)
            },
            Err(e) => r is Err && r->Err_0@ == e,
        },
{
    let cs = chars_of(tok);
    if chars_eq_str(&cs, "*") {
        return Ok(ChunkValues::All);
    }
    if chars_eq_str(&cs, "R") {
        let v = rand_range(rlo, rhi);
        let vals: Vec<u8> = vec![v];
        return Ok(ChunkValues::Vals(vals));
    }
    let ghost parts = spec_split_char(tok@, ',');
    let bounds = split_bounds(&cs, ',');
    let mut acc: Vec<u8> = Vec::new();
    let ghost accset = Set::<u8>::empty();
    let mut i: usize = 0;
    proof {
        assert(parts.skip(0) =~= parts);
        if spec_items(parts, max, one_based) is Ok {
            assert(accset.union(spec_items(parts, max, one_based)->Ok_0) =~= spec_items(
                parts,
                max,
                one_based,
            )->Ok_0);
        }
    }
    while i < bounds.len()
        invariant
            i <= bounds@.len(),
            cs@ == tok@,
            tok@ != "*"@,
            tok@ != "R"@,
            rlo < rhi,
            parts == spec_split_char(tok@, ','),
            bounds@.len() == parts.len(),
            forall|t: int|
                0 <= t < bounds@.len() ==> {
                    &&& #[trigger] bounds@[t].0 <= bounds@[t].1 <= tok@.len()
                    &&& tok@.subrange(bounds@[t].0 as int, bounds@[t].1 as int) == parts[t]
                },
            strictly_sorted(acc@),
            forall|y: u8| #[trigger] acc@.contains(y) <==> accset.contains(y),
            spec_items(parts, max, one_based) == match spec_items(
                parts.skip(i as int),
                max,
                one_based,
            ) {
                Err(e) => Err::<Set<u8>, ErrView>(e),
                Ok(rest) => Ok::<Set<u8>, ErrView>(accset.union(rest)),
            },
        decreases bounds@.len() - i,
    {
        let (lo, hi) = (bounds[i].0, bounds[i].1);
        let part = tok.substring_char(lo, hi);
        proof {
            assert(part@ == parts[i as int]);
            assert(parts.skip(i as int)[0] == parts[i as int]);
            assert(parts.skip(i as int).drop_first() =~= parts.skip(i + 1));
        }
        match parse_item(part, max, one_based) {
            Ok(vals) => {
                let ghost itemset = spec_item(parts[i as int], max, one_based)->Ok_0;
                let mut t: usize = 0;
                while t < vals.len()
                    invariant
                        t <= vals@.len(),
                        strictly_sorted(vals@),
                        forall|y: u8| #[trigger] vals@.contains(y) <==> itemset.contains(y),
                        strictly_sorted(acc@),
                        forall|y: u8| #[trigger] acc@.contains(y) <==> accset.union(
                            vals@.take(t as int).to_set(),
                        ).contains(y),
                    decreases vals@.len() - t,
                {
                    let ghost taken = vals@.take(t as int);
                    insert_sorted_unique(&mut acc, vals[t]);
                    proof {
                        assert(vals@.take(t + 1) =~= taken.push(vals@[t as int]));
                        assert(forall|y: u8|
                            #[trigger] vals@.take(t + 1).to_set().contains(y) <==> (
                            taken.to_set().contains(y) || y == vals@[t as int])) by {
                            assert(forall|y: u8|
                                #[trigger] vals@.take(t + 1).contains(y) <==> (taken.contains(y)
                                    || y == vals@[t as int])) by {
                                assert(forall|q: int|
                                    0 <= q < taken.len() ==> vals@.take(t + 1)[q] == taken[q]);
                                assert(vals@.take(t + 1).last() == vals@[t as int]);
                                assert(forall|q: int|
                                    0 <= q < vals@.take(t + 1).len() ==> (q < taken.len() || #[trigger] vals@.take(t + 1)[q] == vals@[t as int]));
                            }
                        }
                    }
                    t += 1;
                }
                proof {
                    assert(vals@.take(vals@.len() as int) =~= vals@);
                    assert(accset.union(vals@.to_set()) =~= accset.union(itemset)) by {
                        assert(forall|y: u8|
                            #[trigger] vals@.to_set().contains(y) <==> vals@.contains(y));
                    }
                    assert(forall|y: u8|
                        #[trigger] acc@.contains(y) <==> accset.union(itemset).contains(y));
                    // fold this item's set into the running union
                    assert(spec_items(parts, max, one_based) == match spec_items(
                        parts.skip(i + 1),
                        max,
                        one_based,
                    ) {
                        Err(e) => Err::<Set<u8>, ErrView>(e),
                        Ok(rest) => Ok::<Set<u8>, ErrView>(accset.union(itemset).union(rest)),
                    }) by {
                        if spec_items(parts.skip(i + 1), max, one_based) is Ok {
                            let rest = spec_items(parts.skip(i + 1), max, one_based)->Ok_0;
                            assert(accset.union(itemset.union(rest)) =~= accset.union(
                                itemset,
                            ).union(rest));
                        }
                    }
                }
                proof {
                    accset = accset.union(itemset);
                }
                i += 1;
            },
            Err(e) => {
                proof {
                    assert(spec_item(parts[i as int], max, one_based) == Err::<Set<u8>, ErrView>(
                        e@,
                    ));
                    assert(spec_items(parts.skip(i as int), max, one_based) == Err::<
                        Set<u8>,
                        ErrView,
                    >(e@));
                    assert(spec_items(parts, max, one_based) == Err::<Set<u8>, ErrView>(e@));
                }
                return Err(e);
            },
        }
    }
    proof {
        assert(parts.skip(bounds@.len() as int) =~= Seq::<Seq<char>>::empty());
        assert(spec_items(parts, max, one_based) == Ok::<Set<u8>, ErrView>(
            accset.union(Set::empty()),
        ));
        assert(accset.union(Set::empty()) =~= accset);
    }
    Ok(ChunkValues::Vals(acc))
}

} // verus!
