//! Small text helpers shared by the calendar parser and the renderers:
//! extracting the characters of a string, parsing digit strings, and
//! rendering small integers back to text.

use vstd::prelude::*;

verus! {

/// Is `c` an ASCII decimal digit?
pub open spec fn spec_is_digit(c: char) -> bool {
    48 <= c as u32 <= 57
}

/// The numeric value of a digit character.
pub open spec fn spec_digit_val(c: char) -> int
    recommends
        spec_is_digit(c),
{
    c as u32 - 48
}

/// Every character of `s` is an ASCII decimal digit.
pub open spec fn spec_all_digits(s: Seq<char>) -> bool {
    forall|i: int| 0 <= i < s.len() ==> spec_is_digit(#[trigger] s[i])
}

/// The value of a digit string, most significant digit first.
pub open spec fn spec_digits_val(s: Seq<char>) -> int
    decreases s.len(),
{
    if s.len() == 0 {
        0
    } else {
        spec_digits_val(s.drop_last()) * 10 + spec_digit_val(s.last())
    }
}

/// A digit string names a u8 value: non-empty, all digits, value at most 255.
pub open spec fn spec_is_u8_token(s: Seq<char>) -> bool {
    s.len() > 0 && spec_all_digits(s) && spec_digits_val(s) <= 255
}

/// Extending a digit string can only grow its value.
proof fn lemma_digits_val_prefix_le(s: Seq<char>, i: int)
    requires
        0 <= i <= s.len(),
        spec_all_digits(s),
    ensures
        spec_digits_val(s.take(i)) <= spec_digits_val(s),
    decreases s.len() - i,
{
    if i < s.len() {
        lemma_digits_val_prefix_le(s, i + 1);
        assert(s.take(i + 1).drop_last() =~= s.take(i));
        assert(s.take(i + 1).last() == s[i]);
        assert(spec_digits_val(s.take(i)) * 10 + spec_digit_val(s[i]) >= spec_digits_val(
            s.take(i),
        )) by {
            assert(spec_digits_val(s.take(i)) >= 0) by {
                lemma_digits_val_nonneg(s.take(i));
            }
        }
    } else {
        assert(s.take(i) =~= s);
    }
}

/// The value of a digit string is never negative.
proof fn lemma_digits_val_nonneg(s: Seq<char>)
    requires
        spec_all_digits(s),
    ensures
        spec_digits_val(s) >= 0,
    decreases s.len(),
{
    if s.len() > 0 {
        assert(spec_all_digits(s.drop_last()));
        lemma_digits_val_nonneg(s.drop_last());
    }
}

/// The characters of `s`, in order.
pub fn chars_of(s: &str) -> (r: Vec<char>)
    ensures
        r@ == s@,
{
    let n = s.unicode_len();
    let mut r: Vec<char> = Vec::new();
    let mut i: usize = 0;
    while i < n
        invariant
            n == s@.len(),
            i <= n,
            r@ =~= s@.take(i as int),
        decreases n - i,
    {
        r.push(s.get_char(i));
        i += 1;
    }
    proof {
        assert(r@ =~= s@);
    }
    r
}

/// A copy of `cs[from..to]`.
pub fn subchars(cs: &Vec<char>, from: usize, to: usize) -> (r: Vec<char>)
    requires
        from <= to <= cs@.len(),
    ensures
        r@ == cs@.subrange(from as int, to as int),
{
    let mut r: Vec<char> = Vec::new();
    let mut i: usize = from;
    while i < to
        invariant
            from <= i <= to <= cs@.len(),
            r@ =~= cs@.subrange(from as int, i as int),
        decreases to - i,
    {
        r.push(cs[i]);
        i += 1;
    }
    proof {
        assert(r@ =~= cs@.subrange(from as int, to as int));
    }
    r
}

/// Compare a character vector against a string.
pub fn chars_eq_str(cs: &Vec<char>, t: &str) -> (r: bool)
    ensures
        r == (cs@ == t@),
{
    let n = t.unicode_len();
    if cs.len() != n {
        return false;
    }
    let mut i: usize = 0;
    while i < n
        invariant
            i <= n,
            n == t@.len(),
            cs@.len() == n,
            forall|k: int| 0 <= k < i ==> cs@[k] == t@[k],
        decreases n - i,
    {
        if cs[i] != t.get_char(i) {
            return false;
        }
        i += 1;
    }
    proof {
        assert(cs@ =~= t@);
    }
    true
}

/// Parse a digit string as a `u8`.  Succeeds exactly on non-empty all-digit
/// strings whose value fits.
pub fn parse_u8_chars(cs: &Vec<char>) -> (r: Option<u8>)
    ensures
        r is Some <==> spec_is_u8_token(cs@),
        r is Some ==> r->0 == spec_digits_val(cs@),
{
    if cs.len() == 0 {
        return None;
    }
    let mut val: u32 = 0;
    let mut i: usize = 0;
    while i < cs.len()
        invariant
            i <= cs@.len(),
            cs@.len() > 0,
            spec_all_digits(cs@.take(i as int)),
            val == spec_digits_val(cs@.take(i as int)),
            val <= 255,
        decreases cs@.len() - i,
    {
        let c = cs[i];
        let cu = c as u32;
        if cu < 48 || cu > 57 {
            return None;
        }
        proof {
            assert(cs@.take(i + 1).drop_last() =~= cs@.take(i as int));
        }
        val = val * 10 + (cu - 48);
        i += 1;
        if val > 255 {
            proof {
                assert(cs@.take(i as int).is_prefix_of(cs@));
                if spec_all_digits(cs@) {
                    lemma_digits_val_prefix_le(cs@, i as int);
                }
            }
            return None;
        }
    }
    proof {
        assert(cs@.take(cs@.len() as int) =~= cs@);
    }
    Some(val as u8)
}

/// Parse a digit string as a non-negative `i32`, the same way.
pub fn parse_i32_chars(cs: &Vec<char>) -> (r: Option<i32>)
    ensures
        r is Some <==> (cs@.len() > 0 && spec_all_digits(cs@) && spec_digits_val(cs@)
            <= 0x7fff_ffff),
        r is Some ==> r->0 == spec_digits_val(cs@),
{
    if cs.len() == 0 {
        return None;
    }
    let mut val: u64 = 0;
    let mut i: usize = 0;
    while i < cs.len()
        invariant
            i <= cs@.len(),
            cs@.len() > 0,
            spec_all_digits(cs@.take(i as int)),
            val == spec_digits_val(cs@.take(i as int)),
            val <= 0x7fff_ffff,
        decreases cs@.len() - i,
    {
        let c = cs[i];
        let cu = c as u32;
        if cu < 48 || cu > 57 {
            return None;
        }
        proof {
            assert(cs@.take(i + 1).drop_last() =~= cs@.take(i as int));
        }
        val = val * 10 + ((cu - 48) as u64);
        i += 1;
        if val > 0x7fff_ffff {
            proof {
                if spec_all_digits(cs@) {
                    lemma_digits_val_prefix_le(cs@, i as int);
                }
            }
            return None;
        }
    }
    proof {
        assert(cs@.take(cs@.len() as int) =~= cs@);
    }
    Some(val as i32)
}

/// The decimal rendering of a `u8`, without leading zeros.
pub open spec fn spec_u8_str(n: u8) -> Seq<char> {
    if n < 10 {
        seq![spec_digit_char(n as int)]
    } else if n < 100 {
        seq![spec_digit_char(n as int / 10), spec_digit_char(n as int % 10)]
    } else {
        seq![
            spec_digit_char(n as int / 100),
            spec_digit_char((n as int / 10) % 10),
            spec_digit_char(n as int % 10),
        ]
    }
}

/// The digit character for a value below ten.
pub open spec fn spec_digit_char(d: int) -> char
    recommends
        0 <= d <= 9,
{
    ((48 + d) as u8) as char
}

/// The one-character string for a digit value below ten.
pub fn digit_str(d: u8) -> (r: &'static str)
    requires
        d <= 9,
    ensures
        r@ == seq![spec_digit_char(d as int)],
{
    proof {
        reveal_strlit("0");
        reveal_strlit("1");
        reveal_strlit("2");
        reveal_strlit("3");
        reveal_strlit("4");
        reveal_strlit("5");
        reveal_strlit("6");
        reveal_strlit("7");
        reveal_strlit("8");
        reveal_strlit("9");
    }
    let r = match d {
        0 => "0",
        1 => "1",
        2 => "2",
        3 => "3",
        4 => "4",
        5 => "5",
        6 => "6",
        7 => "7",
        8 => "8",
        _ => "9",
    };
    proof {
        assert(r@ =~= seq![spec_digit_char(d as int)]);
    }
    r
}

/// The decimal rendering of a non-negative number, without leading zeros.
pub open spec fn spec_dec_str(n: int) -> Seq<char>
    recommends
        n >= 0,
    decreases n,
{
    if n < 10 {
        seq![spec_digit_char(n)]
    } else {
        spec_dec_str(n / 10).push(spec_digit_char(n % 10))
    }
}

/// Render a `u64` in decimal.
pub fn u64_to_string(n: u64) -> (r: String)
    ensures
        r@ == spec_dec_str(n as int),
    decreases n,
{
    if n < 10 {
        let mut r = String::new();
        r.append(digit_str(n as u8));
        proof {
            assert(r@ =~= spec_dec_str(n as int));
        }
        r
    } else {
        let mut r = u64_to_string(n / 10);
        r.append(digit_str((n % 10) as u8));
        proof {
            assert(r@ =~= spec_dec_str(n as int));
        }
        r
    }
}

/// The lowercase hex digit for a value below sixteen.
pub open spec fn spec_hex_char(d: int) -> char
    recommends
        0 <= d < 16,
{
    if d < 10 {
        spec_digit_char(d)
    } else {
        ((87 + d) as u8) as char
    }
}

fn hex_str(d: u8) -> (r: &'static str)
    requires
        d < 16,
    ensures
        r@ == seq![spec_hex_char(d as int)],
{
    proof {
        reveal_strlit("a");
        reveal_strlit("b");
        reveal_strlit("c");
        reveal_strlit("d");
        reveal_strlit("e");
        reveal_strlit("f");
    }
    if d < 10 {
        digit_str(d)
    } else {
        let r = match d {
            10 => "a",
            11 => "b",
            12 => "c",
            13 => "d",
            14 => "e",
            _ => "f",
        };
        proof {
            assert(r@ =~= seq![spec_hex_char(d as int)]);
        }
        r
    }
}

/// The last `n` hex digits of `v`, most significant first, with leading
/// zeros kept.
pub open spec fn spec_hex_digits(v: int, n: nat) -> Seq<char>
    decreases n,
{
    if n == 0 {
        Seq::empty()
    } else {
        spec_hex_digits(v / 16, (n - 1) as nat).push(spec_hex_char(v % 16))
    }
}

proof fn lemma_hex_digits_len(v: int, n: nat)
    ensures
        spec_hex_digits(v, n).len() == n,
    decreases n,
{
    if n > 0 {
        lemma_hex_digits_len(v / 16, (n - 1) as nat);
    }
}

fn u128_hex(v: u128, n: u64) -> (r: String)
    ensures
        r@ == spec_hex_digits(v as int, n as nat),
        r@.len() == n,
    decreases n,
{
    proof {
        lemma_hex_digits_len(v as int, n as nat);
    }
    if n == 0 {
        let r = String::new();
        proof {
            assert(r@ =~= spec_hex_digits(v as int, 0));
        }
        r
    } else {
        let mut r = u128_hex(v / 16, n - 1);
        r.append(hex_str((v % 16) as u8));
        proof {
            assert(r@ =~= spec_hex_digits(v as int, n as nat));
        }
        r
    }
}

/// The canonical hyphenated rendering of a 128-bit id: five groups of hex
/// digits of lengths 8, 4, 4, 4 and 12.
pub open spec fn spec_uuid_str(v: int) -> Seq<char> {
    let h = spec_hex_digits(v, 32);
    h.subrange(0, 8) + "-"@ + h.subrange(8, 12) + "-"@ + h.subrange(12, 16) + "-"@ + h.subrange(
        16,
        20,
    ) + "-"@ + h.subrange(20, 32)
}

/// Render a 128-bit id in the canonical hyphenated form.
pub fn uuid_to_string(v: u128) -> (r: String)
    ensures
        r@ == spec_uuid_str(v as int),
{
    let h = u128_hex(v, 32);
    let hs = h.as_str();
    let mut r = String::new();
    r.append(hs.substring_char(0, 8));
    r.append("-");
    r.append(hs.substring_char(8, 12));
    r.append("-");
    r.append(hs.substring_char(12, 16));
    r.append("-");
    r.append(hs.substring_char(16, 20));
    r.append("-");
    r.append(hs.substring_char(20, 32));
    proof {
        assert(r@ =~= spec_uuid_str(v as int));
    }
    r
}

/// Render a `u8` in decimal.
pub fn u8_to_string(n: u8) -> (r: String)
    ensures
        r@ == spec_u8_str(n),
{
    let mut r = String::new();
    if n < 10 {
        r.append(digit_str(n));
    } else if n < 100 {
        r.append(digit_str(n / 10));
        r.append(digit_str(n % 10));
    } else {
        r.append(digit_str(n / 100));
        r.append(digit_str((n / 10) % 10));
        r.append(digit_str(n % 10));
    }
    proof {
        assert(r@ =~= spec_u8_str(n));
    }
    r
}

} // verus!
