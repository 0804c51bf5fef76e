//! The few places where the library leans on outside crates: SHA-1 hashing
//! for rollout bucketing, regular-expression matching, semantic-version
//! comparison and timestamp parsing. Each call sits behind one function
//! whose contract names or bounds its result; everything around these
//! calls is verified.

use vstd::prelude::*;

verus! {

/// Whether `c` is a lowercase hexadecimal digit.
pub open spec fn is_hex_digit(c: char) -> bool {
    (48 <= c as u32 && c as u32 <= 57) || (97 <= c as u32 && c as u32 <= 102)
}

/// The hex rendering of the SHA-1 digest of a string's bytes.
pub uninterp spec fn sha1_hex_of(s: Seq<char>) -> Seq<char>;

/// Relies on `sha1::Sha1` (`update`, `digest`) and on `Digest`'s hex
/// rendering: the digest of a string's bytes is forty lowercase hex
/// characters and depends on the string alone.
#[verifier::external_body]
pub(crate) fn sha1_hex(s: &str) -> (r: String)
    ensures
        r@ == sha1_hex_of(s@),
        r@.len() == 40,
        forall|i: int| 0 <= i < r@.len() ==> is_hex_digit(r@[i]),
{
    let mut sha = sha1::Sha1::new();
    sha.update(s.as_bytes());
    sha.digest().to_string()
}

/// Whether the pattern, read as a regular expression, matches the text.
/// A pattern that does not compile matches nothing.
pub uninterp spec fn regex_match_of(pattern: Seq<char>, text: Seq<char>) -> bool;

/// Relies on `regex::Regex::new` and `Regex::is_match`: whether a pattern
/// compiles, and where it does, whether it matches a text, are functions
/// of the two strings alone.
#[verifier::external_body]
pub(crate) fn regex_is_match(pattern: &str, text: &str) -> (r: bool)
    ensures
        r == regex_match_of(pattern@, text@),
{
    match regex::Regex::new(pattern) {
        Ok(re) => re.is_match(text),
        Err(_) => false,
    }
}

/// The ordering of two semantic-version strings, `None` when either side
/// does not parse as a semantic version.
pub uninterp spec fn semver_cmp_of(a: Seq<char>, b: Seq<char>) -> Option<core::cmp::Ordering>;

/// Relies on `semver::Version::parse` and `Ord for Version`: whether a
/// string parses, and how two parsed versions compare, are functions of
/// the two strings alone.
#[verifier::external_body]
pub(crate) fn semver_cmp(a: &str, b: &str) -> (r: Option<core::cmp::Ordering>)
    ensures
        r == semver_cmp_of(a@, b@),
{
    match (semver::Version::parse(a), semver::Version::parse(b)) {
        (Ok(va), Ok(vb)) => Some(va.cmp(&vb)),
        _ => None,
    }
}

/// The instant, as (seconds, nanoseconds) since the epoch, that a string
/// in the ISO-8601 layout `%FT%TZ` denotes; `None` when it does not parse.
pub uninterp spec fn time_parse_of(s: Seq<char>) -> Option<(i64, i32)>;

/// Relies on `time::strptime` with the layout `%FT%TZ` and on
/// `Tm::to_timespec`: the parsed instant is a function of the characters
/// alone (the layout is purely numeric, so no locale is involved).
#[verifier::external_body]
pub(crate) fn time_parse(s: &str) -> (r: Option<(i64, i32)>)
    ensures
        r == time_parse_of(s@),
{
    match time::strptime(s, "%FT%TZ") {
        Ok(tm) => {
            let ts = tm.to_timespec();
            Some((ts.sec, ts.nsec))
        },
        Err(_) => None,
    }
}

} // verus!
