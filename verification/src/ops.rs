//! Clause operators: structural equality, string tests, numeric and
//! chronological comparison, regular-expression and semantic-version
//! matching. Every operator is type-guarded: a mismatch between the kinds
//! of the two operands yields a non-match, never a failure.

use vstd::prelude::*;
use vstd::string::StrSliceExecFns;
use crate::value::{Val, ValS};
use crate::outside::{regex_match_of, regex_is_match, semver_cmp_of, semver_cmp, time_parse_of, time_parse};

verus! {

/// `p` is a prefix of `s`.
pub open spec fn starts_with_model(s: Seq<char>, p: Seq<char>) -> bool {
    p.len() <= s.len() && s.subrange(0, p.len() as int) == p
}

/// `p` is a suffix of `s`.
pub open spec fn ends_with_model(s: Seq<char>, p: Seq<char>) -> bool {
    p.len() <= s.len() && s.subrange(s.len() - p.len(), s.len() as int) == p
}

/// `p` occurs contiguously somewhere in `s`.
pub open spec fn contains_model(s: Seq<char>, p: Seq<char>) -> bool {
    exists|i: int|
        0 <= i <= s.len() - p.len() && #[trigger] s.subrange(i, i + p.len() as int) == p
}

/// Character-for-character equality of two strings.
pub fn str_eq(a: &str, b: &str) -> (r: bool)
    ensures
        r == (a@ == b@),
{
    let la = a.unicode_len();
    let lb = b.unicode_len();
    if la != lb {
        assert(a@.len() != b@.len());
        return false;
    }
    let mut i: usize = 0;
    while i < la
        invariant
            la == a@.len(),
            lb == b@.len(),
            la == lb,
            i <= la,
            forall|j: int| 0 <= j < i ==> a@[j] == b@[j],
        decreases la - i,
    {
        if a.get_char(i) != b.get_char(i) {
            return false;
        }
        i += 1;
    }
    proof {
        assert(a@ =~= b@);
    }
    true
}

/// Whether `s` begins with `p`.
pub fn str_starts_with(s: &str, p: &str) -> (r: bool)
    ensures
        r == starts_with_model(s@, p@),
{
    let ls = s.unicode_len();
    let lp = p.unicode_len();
    if lp > ls {
        return false;
    }
    let mut i: usize = 0;
    while i < lp
        invariant
            ls == s@.len(),
            lp == p@.len(),
            lp <= ls,
            i <= lp,
            forall|j: int| 0 <= j < i ==> s@[j] == p@[j],
        decreases lp - i,
    {
        if s.get_char(i) != p.get_char(i) {
            proof {
                assert(s@.subrange(0, p@.len() as int)[i as int] != p@[i as int]);
            }
            return false;
        }
        i += 1;
    }
    proof {
        assert(s@.subrange(0, p@.len() as int) =~= p@);
    }
    true
}

/// Whether `s` ends with `p`.
pub fn str_ends_with(s: &str, p: &str) -> (r: bool)
    ensures
        r == ends_with_model(s@, p@),
{
    let ls = s.unicode_len();
    let lp = p.unicode_len();
    if lp > ls {
        return false;
    }
    let off = ls - lp;
    let mut i: usize = 0;
    while i < lp
        invariant
            ls == s@.len(),
            lp == p@.len(),
            lp <= ls,
            off == ls - lp,
            i <= lp,
            forall|j: int| 0 <= j < i ==> s@[off + j] == p@[j],
        decreases lp - i,
    {
        if s.get_char(off + i) != p.get_char(i) {
            proof {
                assert(s@.subrange(s@.len() - p@.len(), s@.len() as int)[i as int] != p@[
                    i as int
                ]);
            }
            return false;
        }
        i += 1;
    }
    proof {
        assert(s@.subrange(s@.len() - p@.len(), s@.len() as int) =~= p@);
    }
    true
}

/// Whether `p` matches `s` at offset `i`.
fn matches_at(s: &str, p: &str, i: usize) -> (r: bool)
    requires
        i + p@.len() <= s@.len(),
    ensures
        r == (s@.subrange(i as int, i + p@.len() as int) == p@),
{
    let ls = s.unicode_len();
    let lp = p.unicode_len();
    let mut j: usize = 0;
    while j < lp
        invariant
            ls == s@.len(),
            lp == p@.len(),
            i + lp <= ls,
            j <= lp,
            forall|k: int| 0 <= k < j ==> s@[i + k] == p@[k],
        decreases lp - j,
    {
        if s.get_char(i + j) != p.get_char(j) {
            proof {
                assert(s@.subrange(i as int, i + p@.len() as int)[j as int] != p@[j as int]);
            }
            return false;
        }
        j += 1;
    }
    proof {
        assert(s@.subrange(i as int, i + p@.len() as int) =~= p@);
    }
    true
}

/// Whether `p` occurs as a substring of `s`.
pub fn str_contains_sub(s: &str, p: &str) -> (r: bool)
    ensures
        r == contains_model(s@, p@),
{
    let ls = s.unicode_len();
    let lp = p.unicode_len();
    if lp > ls {
        assert(!contains_model(s@, p@));
        return false;
    }
    let mut i: usize = 0;
    while i < ls - lp
        invariant
            ls == s@.len(),
            lp == p@.len(),
            lp <= ls,
            i <= ls - lp,
            forall|k: int|
                0 <= k < i ==> #[trigger] s@.subrange(k, k + p@.len() as int) != p@,
        decreases ls - lp - i,
    {
        if matches_at(s, p, i) {
            return true;
        }
        i += 1;
    }
    if matches_at(s, p, ls - lp) {
        return true;
    }
    assert(!contains_model(s@, p@));
    false
}

/// Division by 1000 that rounds toward zero, the way machine division does.
pub open spec fn trunc_div_1000(n: int) -> int {
    if n >= 0 {
        n / 1000
    } else {
        -((-n) / 1000)
    }
}

/// The remainder matching `trunc_div_1000`; it carries the sign of `n`.
pub open spec fn trunc_rem_1000(n: int) -> int {
    n - 1000 * trunc_div_1000(n)
}

/// The instant a value denotes: a string is read in the ISO-8601 layout,
/// a number as milliseconds since the epoch, split into whole seconds and
/// nanoseconds. Anything else denotes no instant.
pub open spec fn stamp_of(v: ValS) -> Option<(int, int)> {
    match v {
        ValS::Str(s) => match time_parse_of(s) {
            Some(p) => Some((p.0 as int, p.1 as int)),
            None => None,
        },
        ValS::Int(n) => Some((trunc_div_1000(n), trunc_rem_1000(n) * 1000000)),
        _ => None,
    }
}

/// Chronological order on (seconds, nanoseconds) pairs.
pub open spec fn chrono_lt(a: (int, int), b: (int, int)) -> bool {
    a.0 < b.0 || (a.0 == b.0 && a.1 < b.1)
}

/// One clause operator applied to a user value and one clause operand.
/// An unrecognized operator tag never matches.
pub open spec fn apply_op_model(op: Seq<char>, u: ValS, c: ValS) -> bool {
    if op == "in"@ {
        u == c
    } else if op == "startsWith"@ {
        u is Str && c is Str && starts_with_model(u->Str_0, c->Str_0)
    } else if op == "endsWith"@ {
        u is Str && c is Str && ends_with_model(u->Str_0, c->Str_0)
    } else if op == "matches"@ {
        u is Str && c is Str && regex_match_of(c->Str_0, u->Str_0)
    } else if op == "contains"@ {
        u is Str && c is Str && contains_model(u->Str_0, c->Str_0)
    } else if op == "lessThan"@ {
        u is Int && c is Int && u->Int_0 < c->Int_0
    } else if op == "lessThanOrEqual"@ {
        u is Int && c is Int && u->Int_0 <= c->Int_0
    } else if op == "greaterThan"@ {
        u is Int && c is Int && u->Int_0 > c->Int_0
    } else if op == "greaterThanOrEqual"@ {
        u is Int && c is Int && u->Int_0 >= c->Int_0
    } else if op == "before"@ {
        stamp_of(u) is Some && stamp_of(c) is Some && chrono_lt(
            stamp_of(u)->Some_0,
            stamp_of(c)->Some_0,
        )
    } else if op == "after"@ {
        stamp_of(u) is Some && stamp_of(c) is Some && chrono_lt(
            stamp_of(c)->Some_0,
            stamp_of(u)->Some_0,
        )
    } else if op == "semVerEqual"@ {
        u is Str && c is Str && semver_cmp_of(u->Str_0, c->Str_0) == Some(
            core::cmp::Ordering::Equal,
        )
    } else if op == "semVerLessThan"@ {
        u is Str && c is Str && semver_cmp_of(u->Str_0, c->Str_0) == Some(
            core::cmp::Ordering::Less,
        )
    } else if op == "semVerGreaterThan"@ {
        u is Str && c is Str && semver_cmp_of(u->Str_0, c->Str_0) == Some(
            core::cmp::Ordering::Greater,
        )
    } else {
        false
    }
}

/// Applies one operator, deciding `apply_op_model` exactly.
pub fn apply_op(op: &str, u: &Val, c: &Val) -> (r: bool)
    ensures
        r == apply_op_model(op@, u@, c@),
{
    if str_eq(op, "in") {
        u.deep_eq(c)
    } else if str_eq(op, "startsWith") {
        match u {
            Val::Str(us) => match c {
                Val::Str(cs) => str_starts_with(us.as_str(), cs.as_str()),
                _ => false,
            },
            _ => false,
        }
    } else if str_eq(op, "endsWith") {
        match u {
            Val::Str(us) => match c {
                Val::Str(cs) => str_ends_with(us.as_str(), cs.as_str()),
                _ => false,
            },
            _ => false,
        }
    } else if str_eq(op, "matches") {
        match u {
            Val::Str(us) => match c {
                Val::Str(cs) => regex_is_match(cs.as_str(), us.as_str()),
                _ => false,
            },
            _ => false,
        }
    } else if str_eq(op, "contains") {
        match u {
            Val::Str(us) => match c {
                Val::Str(cs) => str_contains_sub(us.as_str(), cs.as_str()),
                _ => false,
            },
            _ => false,
        }
    } else if str_eq(op, "lessThan") {
        match u {
            Val::Int(un) => match c {
                Val::Int(cn) => *un < *cn,
                _ => false,
            },
            _ => false,
        }
    } else if str_eq(op, "lessThanOrEqual") {
        match u {
            Val::Int(un) => match c {
                Val::Int(cn) => *un <= *cn,
                _ => false,
            },
            _ => false,
        }
    } else if str_eq(op, "greaterThan") {
        match u {
            Val::Int(un) => match c {
                Val::Int(cn) => *un > *cn,
                _ => false,
            },
            _ => false,
        }
    } else if str_eq(op, "greaterThanOrEqual") {
        match u {
            Val::Int(un) => match c {
                Val::Int(cn) => *un >= *cn,
                _ => false,
            },
            _ => false,
        }
    } else if str_eq(op, "before") {
        match to_stamp(u) {
            Some(ut) => match to_stamp(c) {
                Some(ct) => ut.0 < ct.0 || (ut.0 == ct.0 && ut.1 < ct.1),
                None => false,
            },
            None => false,
        }
    } else if str_eq(op, "after") {
        match to_stamp(u) {
            Some(ut) => match to_stamp(c) {
                Some(ct) => ct.0 < ut.0 || (ct.0 == ut.0 && ct.1 < ut.1),
                None => false,
            },
            None => false,
        }
    } else if str_eq(op, "semVerEqual") {
        semver_op_is(u, c, core::cmp::Ordering::Equal)
    } else if str_eq(op, "semVerLessThan") {
        semver_op_is(u, c, core::cmp::Ordering::Less)
    } else if str_eq(op, "semVerGreaterThan") {
        semver_op_is(u, c, core::cmp::Ordering::Greater)
    } else {
        false
    }
}

/// Whether both values are strings whose semantic-version comparison
/// lands on `want`.
fn semver_op_is(u: &Val, c: &Val, want: core::cmp::Ordering) -> (r: bool)
    ensures
        r == (u@ is Str && c@ is Str && semver_cmp_of(u@->Str_0, c@->Str_0) == Some(want)),
{
    match u {
        Val::Str(us) => match c {
            Val::Str(cs) => match semver_cmp(us.as_str(), cs.as_str()) {
                Some(o) => ord_eq(o, want),
                None => false,
            },
            _ => false,
        },
        _ => false,
    }
}

/// Equality of two ordering outcomes.
fn ord_eq(a: core::cmp::Ordering, b: core::cmp::Ordering) -> (r: bool)
    ensures
        r == (a == b),
{
    match a {
        core::cmp::Ordering::Less => match b {
            core::cmp::Ordering::Less => true,
            _ => false,
        },
        core::cmp::Ordering::Equal => match b {
            core::cmp::Ordering::Equal => true,
            _ => false,
        },
        core::cmp::Ordering::Greater => match b {
            core::cmp::Ordering::Greater => true,
            _ => false,
        },
    }
}

/// The instant a value denotes, as machine integers.
pub fn to_stamp(v: &Val) -> (r: Option<(i64, i32)>)
    ensures
        stamp_of(v@) == (match r {
            Some(p) => Some((p.0 as int, p.1 as int)),
            None => None::<(int, int)>,
        }),
{
    match v {
        Val::Str(s) => time_parse(s.as_str()),
        Val::Int(n) => {
            let neg = *n < 0;
            let mag: u128 = if neg {
                (-(*n as i128)) as u128
            } else {
                *n as u128
            };
            let d = (mag / 1000) as u64;
            let rem = (mag % 1000) as i32;
            let sec: i64 = if neg {
                -(d as i64)
            } else {
                d as i64
            };
            let ns: i32 = if neg {
                -(rem * 1000000)
            } else {
                rem * 1000000
            };
            Some((sec, ns))
        },
        _ => None,
    }
}

} // verus!
