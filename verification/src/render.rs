//! What the manager's command line prints: the workers list, one worker per
//! line, padded into columns and sorted by line; and the exit code rules.

use vstd::prelude::*;

use crate::text::{spec_dec_str, spec_uuid_str, u64_to_string, uuid_to_string};

verus! {

/// Lexicographic order on character sequences, by code point.
pub open spec fn spec_str_le(a: Seq<char>, b: Seq<char>) -> bool
    decreases a.len(),
{
    if a.len() == 0 {
        true
    } else if b.len() == 0 {
        false
    } else if (a[0] as u32) < (b[0] as u32) {
        true
    } else if (a[0] as u32) > (b[0] as u32) {
        false
    } else {
        spec_str_le(a.drop_first(), b.drop_first())
    }
}

/// The order is total: two strings compare one way or the other.
pub proof fn lemma_str_le_total(a: Seq<char>, b: Seq<char>)
    ensures
        spec_str_le(a, b) || spec_str_le(b, a),
    decreases a.len(),
{
    if a.len() > 0 && b.len() > 0 && (a[0] as u32) == (b[0] as u32) {
        lemma_str_le_total(a.drop_first(), b.drop_first());
    }
}

fn str_le_from(a: &Vec<char>, b: &Vec<char>, i: usize) -> (r: bool)
    requires
        i <= a@.len(),
        i <= b@.len(),
    ensures
        r == spec_str_le(a@.skip(i as int), b@.skip(i as int)),
    decreases a@.len() - i,
{
    if i == a.len() {
        proof {
            assert(a@.skip(i as int).len() == 0);
        }
        true
    } else if i == b.len() {
        proof {
            assert(b@.skip(i as int).len() == 0);
            assert(a@.skip(i as int).len() > 0);
        }
        false
    } else {
        proof {
            assert(a@.skip(i as int)[0] == a@[i as int]);
            assert(b@.skip(i as int)[0] == b@[i as int]);
            assert(a@.skip(i as int).drop_first() =~= a@.skip(i + 1));
            assert(b@.skip(i as int).drop_first() =~= b@.skip(i + 1));
        }
        let ca = a[i] as u32;
        let cb = b[i] as u32;
        if ca < cb {
            true
        } else if ca > cb {
            false
        } else {
            str_le_from(a, b, i + 1)
        }
    }
}

/// Compare two strings in the order printed lines are sorted by.
pub fn str_le(a: &String, b: &String) -> (r: bool)
    ensures
        r == spec_str_le(a@, b@),
{
    let ca = crate::text::chars_of(a.as_str());
    let cb = crate::text::chars_of(b.as_str());
    proof {
        assert(ca@.skip(0) =~= a@);
        assert(cb@.skip(0) =~= b@);
    }
    str_le_from(&ca, &cb, 0)
}

/// `n` spaces.
pub open spec fn spec_spaces(n: nat) -> Seq<char>
    decreases n,
{
    if n == 0 {
        Seq::empty()
    } else {
        spec_spaces((n - 1) as nat).push(' ')
    }
}

/// `s` padded with spaces on the right to width `w`; a longer string stays
/// as it is.
pub open spec fn spec_pad(s: Seq<char>, w: int) -> Seq<char> {
    if s.len() >= w {
        s
    } else {
        s + spec_spaces((w - s.len()) as nat)
    }
}

fn pad_to(s: &str, w: usize) -> (r: String)
    ensures
        r@ == spec_pad(s@, w as int),
{
    let mut r = s.to_owned();
    let n = s.unicode_len();
    if n >= w {
        return r;
    }
    let mut k: usize = n;
    while k < w
        invariant
            n <= k <= w,
            n == s@.len(),
            r@ =~= s@ + spec_spaces((k - n) as nat),
        decreases w - k,
    {
        r.append(" ");
        proof {
            reveal_strlit(" ");
            assert(r@ =~= s@ + spec_spaces((k + 1 - n) as nat));
        }
        k += 1;
    }
    r
}

/// One printed line of the workers list: the name and address padded into
/// columns, then the worker's id in parentheses.
pub open spec fn spec_worker_line(w: (u128, (String, String)), name_w: int, ip_w: int) -> Seq<
    char,
> {
    spec_pad(w.1.1@, name_w) + " - "@ + spec_pad(w.1.0@, ip_w) + " ("@ + spec_uuid_str(w.0 as int)
        + ")"@
}

/// The widest name and address of the listed workers, or twenty for an
/// empty list.
pub open spec fn spec_max_len(s: Seq<Seq<char>>) -> int
    decreases s.len(),
{
    if s.len() == 0 {
        20
    } else if s.len() == 1 {
        s[0].len() as int
    } else {
        let rest = spec_max_len(s.drop_last());
        if s.last().len() > rest {
            s.last().len() as int
        } else {
            rest
        }
    }
}

/// Lines stand in sorted order.
pub open spec fn lines_sorted(s: Seq<String>) -> bool {
    forall|i: int| 0 <= i < s.len() - 1 ==> spec_str_le((#[trigger] s[i])@, s[i + 1]@)
}

fn insert_line(v: &mut Vec<String>, x: String)
    requires
        lines_sorted(old(v)@),
    ensures
        lines_sorted(final(v)@),
        final(v)@.len() == old(v)@.len() + 1,
        final(v)@.contains(x),
        forall|y: String| old(v)@.contains(y) ==> final(v)@.contains(y),
        forall|y: String| final(v)@.contains(y) ==> (old(v)@.contains(y) || y == x),
    decreases old(v)@.len(),
{
    let ghost oldv = v@;
    let mut p: usize = 0;
    while p < v.len() && str_le(&v[p], &x)
        invariant
            p <= v@.len(),
            v@ == oldv,
            forall|t: int| 0 <= t < p ==> spec_str_le((#[trigger] v@[t])@, x@),
        decreases v@.len() - p,
    {
        p += 1;
    }
    proof {
        if p < v@.len() {
            lemma_str_le_total(v@[p as int]@, x@);
        }
    }
    v.insert(p, x);
    proof {
        assert(forall|t: int| 0 <= t < p ==> v@[t] == oldv[t]);
        assert(v@[p as int] == x);
        assert(forall|t: int| p < t < v@.len() ==> v@[t] == oldv[t - 1]);
        assert(lines_sorted(v@)) by {
            assert forall|i: int| 0 <= i < v@.len() - 1 implies spec_str_le(
                (#[trigger] v@[i])@,
                v@[i + 1]@,
            ) by {
                if i + 1 < p {
                    assert(v@[i] == oldv[i] && v@[i + 1] == oldv[i + 1]);
                } else if i + 1 == p {
                    assert(v@[i] == oldv[i]);
                } else if i == p {
                    assert(v@[i + 1] == oldv[i]);
                } else {
                    assert(v@[i] == oldv[i - 1] && v@[i + 1] == oldv[i]);
                }
            }
        }
        assert(forall|y: String| oldv.contains(y) ==> v@.contains(y)) by {
            assert(forall|t: int|
                0 <= t < oldv.len() ==> v@[if t < p {
                    t
                } else {
                    t + 1
                }] == oldv[t]);
        }
        assert(forall|y: String| v@.contains(y) ==> (oldv.contains(y) || y == x)) by {
            assert(forall|t: int|
                0 <= t < v@.len() && t != p ==> oldv[if t < p {
                    t
                } else {
                    t - 1
                }] == v@[t]);
        }
    }
}

/// The header line of the workers list.
pub fn workers_count_line(count: u64) -> (r: String)
    ensures
        r@ == spec_dec_str(count as int) + " worker(s) connected"@,
{
    let mut r = u64_to_string(count);
    r.append(" worker(s) connected");
    r
}

/// Render the workers list: one line per worker, names and addresses padded
/// to the widest of each column, sorted; every listed worker appears, and
/// nothing else does.
#[verifier::spinoff_prover]
#[verifier::rlimit(80)]
pub fn render_workers_list(workers: &Vec<(u128, (String, String))>) -> (r: Vec<String>)
    ensures
        r@.len() == workers@.len(),
        lines_sorted(r@),
        ({
            let ips = workers@.map_values(|w: (u128, (String, String))| w.1.0@);
            let names = workers@.map_values(|w: (u128, (String, String))| w.1.1@);
            &&& forall|t: int|
                0 <= t < workers@.len() ==> exists|u: int|
                    0 <= u < r@.len() && (#[trigger] r@[u])@ == spec_worker_line(
                        #[trigger] workers@[t],
                        spec_max_len(names),
                        spec_max_len(ips),
                    )
            &&& forall|u: int|
                0 <= u < r@.len() ==> exists|t: int|
                    0 <= t < workers@.len() && (#[trigger] r@[u])@ == spec_worker_line(
                        workers@[t],
                        spec_max_len(names),
                        spec_max_len(ips),
                    )
        }),
{
    let ghost ips = workers@.map_values(|w: (u128, (String, String))| w.1.0@);
    let ghost names = workers@.map_values(|w: (u128, (String, String))| w.1.1@);
    let ip_w = max_field_len(workers, true);
    let name_w = max_field_len(workers, false);
    proof {
        assert(ip_w == spec_max_len(ips));
        assert(name_w == spec_max_len(names));
    }
    let mut r: Vec<String> = Vec::new();
    let mut i: usize = 0;
    while i < workers.len()
        invariant
            i <= workers@.len(),
            ip_w == spec_max_len(ips),
            name_w == spec_max_len(names),
            ips == workers@.map_values(|w: (u128, (String, String))| w.1.0@),
            names == workers@.map_values(|w: (u128, (String, String))| w.1.1@),
            r@.len() == i,
            lines_sorted(r@),
            forall|t: int|
                0 <= t < i ==> exists|u: int|
                    0 <= u < r@.len() && (#[trigger] r@[u])@ == spec_worker_line(
                        #[trigger] workers@[t],
                        name_w as int,
                        ip_w as int,
                    ),
            forall|u: int|
                0 <= u < r@.len() ==> exists|t: int|
                    0 <= t < i && (#[trigger] r@[u])@ == spec_worker_line(
                        workers@[t],
                        name_w as int,
                        ip_w as int,
                    ),
        decreases workers@.len() - i,
    {
        let mut line = pad_to(workers[i].1.1.as_str(), name_w);
        line.append(" - ");
        let padded_ip = pad_to(workers[i].1.0.as_str(), ip_w);
        line.append(padded_ip.as_str());
        line.append(" (");
        let ids = uuid_to_string(workers[i].0);
        line.append(ids.as_str());
        line.append(")");
        proof {
            assert(line@ == spec_worker_line(workers@[i as int], name_w as int, ip_w as int));
        }
        let ghost r_before = r@;
        insert_line(&mut r, line);
        proof {
            assert forall|t: int| 0 <= t < i + 1 implies exists|u: int|
                0 <= u < r@.len() && (#[trigger] r@[u])@ == spec_worker_line(
                    #[trigger] workers@[t],
                    name_w as int,
                    ip_w as int,
                ) by {
                if t < i {
                    let u0 = choose|u0: int|
                        0 <= u0 < r_before.len() && (#[trigger] r_before[u0])@
                            == spec_worker_line(workers@[t], name_w as int, ip_w as int);
                    assert(r_before.contains(r_before[u0]));
                    assert(r@.contains(r_before[u0]));
                    let u1 = choose|u1: int| 0 <= u1 < r@.len() && r@[u1] == r_before[u0];
                    assert(r@[u1]@ == spec_worker_line(workers@[t], name_w as int, ip_w as int));
                } else {
                    assert(r@.contains(line));
                    let u1 = choose|u1: int| 0 <= u1 < r@.len() && r@[u1] == line;
                    assert(r@[u1]@ == spec_worker_line(workers@[t], name_w as int, ip_w as int));
                }
            }
            assert forall|u: int| 0 <= u < r@.len() implies exists|t: int|
                0 <= t < i + 1 && (#[trigger] r@[u])@ == spec_worker_line(
                    workers@[t],
                    name_w as int,
                    ip_w as int,
                ) by {
                assert(r@.contains(r@[u]));
                if r@[u] == line {
                    assert(r@[u]@ == spec_worker_line(
                        workers@[i as int],
                        name_w as int,
                        ip_w as int,
                    ));
                } else {
                    assert(r_before.contains(r@[u]));
                    let u0 = choose|u0: int| 0 <= u0 < r_before.len() && r_before[u0] == r@[u];
                    let t0 = choose|t0: int|
                        0 <= t0 < i && (#[trigger] r_before[u0])@ == spec_worker_line(
                            workers@[t0],
                            name_w as int,
                            ip_w as int,
                        );
                    assert(r@[u]@ == spec_worker_line(workers@[t0], name_w as int, ip_w as int));
                }
            }
        }
        i += 1;
    }
    r
}

/// The widest address (or name) among the listed workers, or twenty when
/// none are listed.
fn max_field_len(workers: &Vec<(u128, (String, String))>, ip_field: bool) -> (r: usize)
    ensures
        ip_field ==> r == spec_max_len(
            workers@.map_values(|w: (u128, (String, String))| w.1.0@),
        ),
        !ip_field ==> r == spec_max_len(
            workers@.map_values(|w: (u128, (String, String))| w.1.1@),
        ),
{
    let ghost fields = if ip_field {
        workers@.map_values(|w: (u128, (String, String))| w.1.0@)
    } else {
        workers@.map_values(|w: (u128, (String, String))| w.1.1@)
    };
    if workers.len() == 0 {
        proof {
            assert(fields.len() == 0);
        }
        return 20;
    }
    let first = if ip_field {
        workers[0].1.0.unicode_len()
    } else {
        workers[0].1.1.unicode_len()
    };
    let mut best: usize = first;
    let mut i: usize = 1;
    proof {
        assert(fields.take(1).len() == 1);
        assert(fields.take(1)[0] == fields[0]);
        assert(spec_max_len(fields.take(1)) == fields[0].len());
    }
    while i < workers.len()
        invariant
            1 <= i <= workers@.len(),
            fields == (if ip_field {
                workers@.map_values(|w: (u128, (String, String))| w.1.0@)
            } else {
                workers@.map_values(|w: (u128, (String, String))| w.1.1@)
            }),
            fields.len() == workers@.len(),
            best == spec_max_len(fields.take(i as int)),
        decreases workers@.len() - i,
    {
        let len_i = if ip_field {
            workers[i].1.0.unicode_len()
        } else {
            workers[i].1.1.unicode_len()
        };
        proof {
            assert(fields.take(i + 1).drop_last() =~= fields.take(i as int));
            assert(fields.take(i + 1).last() == fields[i as int]);
            assert(fields.take(i + 1).len() == i + 1);
        }
        if len_i > best {
            best = len_i;
        }
        i += 1;
    }
    proof {
        assert(fields.take(fields.len() as int) =~= fields);
    }
    best
}

/// Why a run of a binary ended without doing its work.
#[derive(Clone, Copy, Debug, PartialEq, Eq, Structural)]
pub enum RunOutcome {
    /// The command line asked for the help text.
    Help,
    /// The command line asked for the version.
    Version,
    /// The command line could not be parsed.
    BadUsage,
    /// Anything else went wrong.
    Failed,
}

/// The exit code for a failed run: asking for help or the version is a
/// success, everything else is a failure.
pub fn outcome_code(outcome: RunOutcome) -> (code: i32)
    ensures
        code == 0 <==> (outcome is Help || outcome is Version),
        code == 0 || code == 1,
{
    match outcome {
        RunOutcome::Help => 0,
        RunOutcome::Version => 0,
        RunOutcome::BadUsage => 1,
        RunOutcome::Failed => 1,
    }
}

/// The line the manager prints for a reload answer.
pub fn reload_line(ok: bool) -> (r: String)
    ensures
        ok ==> r@ == "reload was a success"@,
        !ok ==> r@ == "reload was a failure"@,
{
    if ok {
        String::from_str("reload was a success")
    } else {
        String::from_str("reload was a failure")
    }
}

} // verus!
