//! Percentage-rollout bucketing: a deterministic hash of flag key, salt
//! and the user's bucketing value maps every user to a point in the unit
//! interval, kept here as an integer numerator over `LONG_SCALE`.

use vstd::prelude::*;
use vstd::string::{StrSliceExecFns, StringExecFns};
use crate::value::{Val, ValS};
use crate::user::{LDUser, UserS, attr_model};
use crate::outside::{sha1_hex, sha1_hex_of, is_hex_digit};

verus! {

/// The character for one decimal digit.
pub open spec fn digit_char(d: int) -> char {
    if d == 0 {
        '0'
    } else if d == 1 {
        '1'
    } else if d == 2 {
        '2'
    } else if d == 3 {
        '3'
    } else if d == 4 {
        '4'
    } else if d == 5 {
        '5'
    } else if d == 6 {
        '6'
    } else if d == 7 {
        '7'
    } else if d == 8 {
        '8'
    } else {
        '9'
    }
}

/// The decimal digits of a nonnegative integer, most significant first.
pub open spec fn dec_digits(n: nat) -> Seq<char>
    decreases n,
{
    if n < 10 {
        seq![digit_char(n as int)]
    } else {
        dec_digits(n / 10) + seq![digit_char((n % 10) as int)]
    }
}

/// The decimal rendering of an integer: a `-` sign for negative numbers,
/// then the digits with no leading zero.
pub open spec fn dec_str_of(n: int) -> Seq<char> {
    if n < 0 {
        seq!['-'] + dec_digits((-n) as nat)
    } else {
        dec_digits(n as nat)
    }
}

/// Appends the character for one decimal digit.
fn push_digit(out: &mut String, d: u64)
    requires
        d < 10,
    ensures
        final(out)@ == old(out)@ + seq![digit_char(d as int)],
{
    proof {
        reveal_strlit("0");
        reveal_strlit("1");
        reveal_strlit("2");
        reveal_strlit("3");
        reveal_strlit("4");
        reveal_strlit("5");
        reveal_strlit("6");
        reveal_strlit("7");
        reveal_strlit("8");
        reveal_strlit("9");
    }
    match d {
        0 => out.append("0"),
        1 => out.append("1"),
        2 => out.append("2"),
        3 => out.append("3"),
        4 => out.append("4"),
        5 => out.append("5"),
        6 => out.append("6"),
        7 => out.append("7"),
        8 => out.append("8"),
        _ => out.append("9"),
    }
    proof {
        assert(out@ =~= old(out)@ + seq![digit_char(d as int)]);
    }
}

/// Writes an integer in decimal: a `-` sign for negative numbers, then
/// the digits with no leading zero.
fn int_decimal_string(n: i64) -> (r: String)
    ensures
        r@ == dec_str_of(n as int),
{
    let neg = n < 0;
    let mut m: u64 = if neg {
        (-(n as i128)) as u64
    } else {
        n as u64
    };
    let ghost m0: nat = m as nat;
    let mut digits: Vec<u64> = Vec::new();
    let ghost mut suffix: Seq<char> = Seq::empty();
    proof {
        assert(dec_digits(m0) =~= dec_digits(m as nat) + suffix);
    }
    while m >= 10
        invariant
            dec_digits(m0) == dec_digits(m as nat) + suffix,
            digits.len() == suffix.len(),
            forall|j: int|
                0 <= j < digits.len() ==> digits[j] < 10 && suffix[suffix.len() - 1 - j]
                    == digit_char(digits[j] as int),
        decreases m,
    {
        let d = m % 10;
        digits.push(d);
        proof {
            let old_suffix = suffix;
            suffix = seq![digit_char(d as int)] + suffix;
            assert(dec_digits(m as nat) == dec_digits((m as nat) / 10) + seq![
                digit_char(((m as nat) % 10) as int),
            ]);
            assert((m / 10) as nat == (m as nat) / 10);
            assert(d as int == ((m as nat) % 10) as int);
            assert(dec_digits(m0) =~= dec_digits((m / 10) as nat) + suffix);
            assert(forall|j: int|
                0 <= j < old_suffix.len() ==> #[trigger] suffix[suffix.len() - 1 - j]
                    == old_suffix[old_suffix.len() - 1 - j]);
        }
        m = m / 10;
    }
    let mut out = String::new();
    if neg {
        proof {
            reveal_strlit("-");
        }
        out.append("-");
    }
    let ghost head = out@;
    push_digit(&mut out, m);
    proof {
        assert(dec_digits(m as nat) =~= seq![digit_char(m as int)]);
        assert(out@ =~= head + dec_digits(m as nat));
    }
    let ghost before = out@;
    let mut k: usize = digits.len();
    while k > 0
        invariant
            k <= digits.len(),
            digits.len() == suffix.len(),
            forall|j: int|
                0 <= j < digits.len() ==> digits[j] < 10 && suffix[suffix.len() - 1 - j]
                    == digit_char(digits[j] as int),
            out@ == before + suffix.take(suffix.len() - k),
        decreases k,
    {
        push_digit(&mut out, digits[k - 1]);
        proof {
            assert(suffix[suffix.len() - (k - 1) - 1] == digit_char(
                digits@[k - 1] as int,
            ));
            assert(out@ =~= before + suffix.take(suffix.len() - (k - 1)));
        }
        k -= 1;
    }
    proof {
        assert(suffix.take(suffix.len() as int) =~= suffix);
        assert(out@ =~= head + dec_digits(m0));
        if neg {
            assert(head =~= seq!['-']);
            assert(m0 == -(n as int));
        } else {
            assert(head =~= Seq::<char>::empty());
            assert(out@ =~= dec_digits(m0));
        }
    }
    out
}

/// The largest value fifteen hex digits can hold; bucket numerators range
/// over `0 ..= LONG_SCALE`, standing for the fraction numerator/scale.
pub const LONG_SCALE: u64 = 0xFFF_FFFF_FFFF_FFFF;

/// The value of one lowercase hex digit; anything else counts zero.
pub open spec fn hex_digit_val(c: char) -> int {
    if 48 <= c as u32 && c as u32 <= 57 {
        c as u32 - 48
    } else if 97 <= c as u32 && c as u32 <= 102 {
        c as u32 - 87
    } else {
        0
    }
}

/// The value of a big-endian string of hex digits.
pub open spec fn hex_val(s: Seq<char>) -> int
    decreases s.len(),
{
    if s.len() == 0 {
        0
    } else {
        16 * hex_val(s.drop_last()) + hex_digit_val(s.last())
    }
}

/// Sixteen to the power `k`.
pub open spec fn pow16(k: nat) -> int
    decreases k,
{
    if k == 0 {
        1
    } else {
        16 * pow16((k - 1) as nat)
    }
}

proof fn lemma_pow16_pos(k: nat)
    ensures
        pow16(k) >= 1,
    decreases k,
{
    if k > 0 {
        lemma_pow16_pos((k - 1) as nat);
    }
}

proof fn lemma_pow16_monotone(a: nat, b: nat)
    requires
        a <= b,
    ensures
        pow16(a) <= pow16(b),
    decreases b,
{
    if a < b {
        lemma_pow16_monotone(a, (b - 1) as nat);
        lemma_pow16_pos((b - 1) as nat);
    }
}

/// Reads the first fifteen hex digits of a digest as an integer.
fn parse_hex15(digest: &String) -> (h: u64)
    requires
        digest@.len() >= 15,
        forall|i: int| 0 <= i < digest@.len() ==> is_hex_digit(digest@[i]),
    ensures
        h as int == hex_val(digest@.take(15)),
        h <= LONG_SCALE,
{
    let mut h: u64 = 0;
    let mut k: usize = 0;
    proof {
        assert(digest@.take(0) =~= Seq::<char>::empty());
        reveal_with_fuel(pow16, 16);
    }
    while k < 15
        invariant
            k <= 15,
            digest@.len() >= 15,
            forall|i: int| 0 <= i < digest@.len() ==> is_hex_digit(digest@[i]),
            h as int == hex_val(digest@.take(k as int)),
            (h as int) < pow16(k as nat),
        decreases 15 - k,
    {
        let c = digest.as_str().get_char(k);
        let u = c as u32;
        let d: u64 = if u >= 48 && u <= 57 {
            (u - 48) as u64
        } else if u >= 97 && u <= 102 {
            (u - 87) as u64
        } else {
            0
        };
        proof {
            reveal_with_fuel(pow16, 16);
            lemma_pow16_monotone(k as nat, 14);
            assert(d as int == hex_digit_val(digest@[k as int]));
            assert(d < 16);
        }
        h = h * 16 + d;
        proof {
            let pre = digest@.take(k + 1);
            assert(pre.drop_last() =~= digest@.take(k as int));
            assert(pre.last() == digest@[k as int]);
        }
        k += 1;
    }
    proof {
        reveal_with_fuel(pow16, 16);
    }
    h
}

/// The string a value buckets by: a string itself, a number in decimal,
/// anything else nothing.
pub open spec fn bucketable(v: ValS) -> Option<Seq<char>> {
    match v {
        ValS::Str(s) => Some(s),
        ValS::Int(n) => Some(dec_str_of(n)),
        _ => None,
    }
}

/// The bucketing input for a user: the bucket-by attribute's string, with
/// the secondary key appended after a dot when one is set.
pub open spec fn bucket_input(u: UserS, bucket_by: Seq<char>) -> Option<Seq<char>> {
    match bucketable(attr_model(u, bucket_by)) {
        Some(s) => match u.secondary {
            Some(sec) => Some(s + "."@ + sec),
            None => Some(s),
        },
        None => None,
    }
}

/// The bucket numerator for a hash input: the first fifteen hex digits of
/// the SHA-1 digest of `key.salt.input`.
pub open spec fn bucket_num(key: Seq<char>, salt: Seq<char>, input: Seq<char>) -> int {
    hex_val(sha1_hex_of(key + "."@ + salt + "."@ + input).take(15))
}

/// Where a user lands for a flag: the hash numerator, or zero when the
/// bucket-by attribute is not a string or number.
pub open spec fn user_bucket(u: UserS, key: Seq<char>, bucket_by: Seq<char>, salt: Seq<char>) -> int {
    match bucket_input(u, bucket_by) {
        Some(input) => bucket_num(key, salt, input),
        None => 0,
    }
}

/// Computes the user's bucket numerator for a flag and salt.
pub fn bucket_user(user: &LDUser, key: &String, bucket_by: &String, salt: &String) -> (h: u64)
    ensures
        h as int == user_bucket(user@, key@, bucket_by@, salt@),
        h <= LONG_SCALE,
{
    let uv = user.get_value_for_evaluation(bucket_by);
    let mut input: String = match uv {
        Val::Str(s) => s,
        Val::Int(n) => int_decimal_string(n),
        _ => {
            return 0;
        },
    };
    match &user.secondary {
        Some(sec) => {
            input.append(".");
            input.append(sec.as_str());
        },
        None => {},
    }
    proof {
        assert(bucket_input(user@, bucket_by@) == Some(input@));
    }
    let mut full = String::new();
    full.append(key.as_str());
    full.append(".");
    full.append(salt.as_str());
    full.append(".");
    full.append(input.as_str());
    proof {
        assert(full@ =~= key@ + "."@ + salt@ + "."@ + input@);
    }
    let digest = sha1_hex(full.as_str());
    parse_hex15(&digest)
}

} // verus!
