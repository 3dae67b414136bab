//! Decimal text: formatting an unsigned integer as ASCII digits, and
//! parsing integers out of ASCII digit strings.

use vstd::prelude::*;

verus! {

/// The ASCII code of the digit zero.
pub const DIGIT_ZERO: u8 = 48;

/// The decimal digit string of `n`, most significant digit first.
pub open spec fn spec_digits(n: nat) -> Seq<u8>
    decreases n,
{
    if n < 10 {
        seq![(DIGIT_ZERO + n) as u8]
    } else {
        spec_digits(n / 10).push((DIGIT_ZERO + n % 10) as u8)
    }
}

/// Append the decimal digits of `n` to `out`.
pub fn push_u64_digits(n: u64, out: &mut Vec<u8>)
    ensures
        final(out)@ == old(out)@ + spec_digits(n as nat),
    decreases n,
{
    if n < 10 {
        out.push(DIGIT_ZERO + n as u8);
        proof {
            assert(out@ =~= old(out)@ + spec_digits(n as nat));
        }
    } else {
        push_u64_digits(n / 10, out);
        out.push(DIGIT_ZERO + (n % 10) as u8);
        proof {
            assert(out@ =~= old(out)@ + spec_digits(n as nat));
        }
    }
}

/// The decimal digit string of `n` as a fresh vector.
pub fn u64_digits(n: u64) -> (r: Vec<u8>)
    ensures
        r@ == spec_digits(n as nat),
{
    let mut out: Vec<u8> = Vec::new();
    push_u64_digits(n, &mut out);
    proof {
        assert(out@ =~= spec_digits(n as nat));
    }
    out
}

/// Is `b` the ASCII code of a decimal digit?
pub open spec fn is_digit(b: u8) -> bool {
    DIGIT_ZERO <= b <= 57
}

/// Does `s` consist of decimal digits only?
pub open spec fn all_digits(s: Seq<u8>) -> bool {
    forall|i: int| 0 <= i < s.len() ==> is_digit(#[trigger] s[i])
}

/// The numeric value of a digit string (0 for the empty string).
pub open spec fn digits_value(s: Seq<u8>) -> int
    decreases s.len(),
{
    if s.len() == 0 {
        0
    } else {
        digits_value(s.drop_last()) * 10 + (s.last() - DIGIT_ZERO)
    }
}

proof fn lemma_digits_value_nonneg(s: Seq<u8>)
    requires
        all_digits(s),
    ensures
        digits_value(s) >= 0,
    decreases s.len(),
{
    if s.len() > 0 {
        assert(all_digits(s.drop_last()));
        lemma_digits_value_nonneg(s.drop_last());
    }
}

/// A digit string is worth at least as much as any of its prefixes.
proof fn lemma_digits_value_prefix(s: Seq<u8>, i: int)
    requires
        all_digits(s),
        0 <= i <= s.len(),
    ensures
        digits_value(s) >= digits_value(s.take(i)),
    decreases s.len() - i,
{
    if i < s.len() {
        lemma_digits_value_prefix(s, i + 1);
        let t = s.take(i + 1);
        assert(t.drop_last() =~= s.take(i));
        assert(t.last() == s[i]);
        assert(all_digits(s.take(i)));
        lemma_digits_value_nonneg(s.take(i));
        assert(digits_value(t) == digits_value(s.take(i)) * 10 + (s[i] - DIGIT_ZERO));
        assert(digits_value(t) >= digits_value(s.take(i)));
    } else {
        assert(s.take(i) =~= s);
    }
}

/// Does the unsigned number text start with an explicit plus sign?
pub open spec fn has_plus_sign(s: Seq<u8>) -> bool {
    s.len() > 0 && s[0] == 43
}

/// The digit part of an unsigned number text: everything after an
/// optional leading plus sign.
pub open spec fn unsigned_body(s: Seq<u8>) -> Seq<u8> {
    if has_plus_sign(s) {
        s.skip(1)
    } else {
        s
    }
}

/// The value the standard unsigned decimal parser gives to `s`:
/// an optional `+` sign, then at least one digit, the value fitting in `u64`.
pub open spec fn spec_parse_u64(s: Seq<u8>) -> Option<u64> {
    let body = unsigned_body(s);
    if body.len() > 0 && all_digits(body) && digits_value(body) <= u64::MAX {
        Some(digits_value(body) as u64)
    } else {
        None
    }
}

/// Parse an unsigned decimal integer, rejecting anything the standard
/// parser would reject: an empty string, a stray character, overflow.
pub fn parse_u64(s: &[u8]) -> (r: Option<u64>)
    ensures
        r == spec_parse_u64(s@),
{
    let start: usize = if s.len() > 0 && s[0] == 43 {
        1
    } else {
        0
    };
    proof {
        assert(unsigned_body(s@) =~= s@.subrange(start as int, s@.len() as int));
    }
    if start >= s.len() {
        return None;
    }
    let n: usize = s.len();
    let mut acc: u128 = 0;
    let mut i: usize = start;
    while i < n
        invariant
            start <= i <= n == s@.len(),
            start < n,
            unsigned_body(s@) == s@.subrange(start as int, n as int),
            all_digits(s@.subrange(start as int, i as int)),
            acc == digits_value(s@.subrange(start as int, i as int)),
            acc <= u64::MAX,
        decreases n - i,
    {
        let ghost body = unsigned_body(s@);
        let b = s[i];
        if b < DIGIT_ZERO || b > 57 {
            proof {
                assert(body[i - start] == s@[i as int]);
                assert(!is_digit(body[i - start]));
                assert(!all_digits(body));
            }
            return None;
        }
        let ghost prev = s@.subrange(start as int, i as int);
        acc = acc * 10 + ((b - DIGIT_ZERO) as u128);
        i += 1;
        proof {
            let cur = s@.subrange(start as int, i as int);
            assert(cur.drop_last() =~= prev);
            assert(cur.last() == b);
            assert(acc == digits_value(cur));
        }
        if acc > u64::MAX as u128 {
            proof {
                let cur = s@.subrange(start as int, i as int);
                if all_digits(body) {
                    assert(cur =~= body.take(i - start));
                    lemma_digits_value_prefix(body, i - start);
                    assert(digits_value(body) > u64::MAX);
                }
            }
            return None;
        }
    }
    proof {
        assert(s@.subrange(start as int, i as int) =~= unsigned_body(s@));
    }
    Some(acc as u64)
}

/// As [`spec_parse_u64`], with the result required to fit in `u8`.
pub open spec fn spec_parse_u8(s: Seq<u8>) -> Option<u8> {
    match spec_parse_u64(s) {
        Some(v) => if v <= u8::MAX as u64 {
            Some(v as u8)
        } else {
            None
        },
        None => None,
    }
}

/// Parse an unsigned decimal integer that must fit in `u8`.
pub fn parse_u8(s: &[u8]) -> (r: Option<u8>)
    ensures
        r == spec_parse_u8(s@),
{
    match parse_u64(s) {
        Some(v) => if v <= u8::MAX as u64 {
            Some(v as u8)
        } else {
            None
        },
        None => None,
    }
}

/// Does the signed number text start with a minus sign?
pub open spec fn has_minus_sign(s: Seq<u8>) -> bool {
    s.len() > 0 && s[0] == 45
}

/// The digit part of a signed number text: everything after an optional
/// leading plus or minus sign.
pub open spec fn signed_body(s: Seq<u8>) -> Seq<u8> {
    if s.len() > 0 && (s[0] == 43 || s[0] == 45) {
        s.skip(1)
    } else {
        s
    }
}

/// The value the standard signed decimal parser gives to `s`:
/// an optional sign, then at least one digit, the value fitting in `i32`.
pub open spec fn spec_parse_i32(s: Seq<u8>) -> Option<i32> {
    let body = signed_body(s);
    if body.len() > 0 && all_digits(body) {
        let v = if has_minus_sign(s) {
            -digits_value(body)
        } else {
            digits_value(body)
        };
        if i32::MIN <= v <= i32::MAX {
            Some(v as i32)
        } else {
            None
        }
    } else {
        None
    }
}

/// Parse a signed decimal integer that must fit in `i32`.
pub fn parse_i32(s: &[u8]) -> (r: Option<i32>)
    ensures
        r == spec_parse_i32(s@),
{
    let negative = s.len() > 0 && s[0] == 45;
    let start: usize = if s.len() > 0 && (s[0] == 43 || s[0] == 45) {
        1
    } else {
        0
    };
    proof {
        assert(signed_body(s@) =~= s@.subrange(start as int, s@.len() as int));
    }
    if start >= s.len() {
        return None;
    }
    let n: usize = s.len();
    let mut acc: u128 = 0;
    let mut i: usize = start;
    while i < n
        invariant
            start <= i <= n == s@.len(),
            start < n,
            negative == has_minus_sign(s@),
            signed_body(s@) == s@.subrange(start as int, n as int),
            all_digits(s@.subrange(start as int, i as int)),
            acc == digits_value(s@.subrange(start as int, i as int)),
            acc <= 2147483648u128,
        decreases n - i,
    {
        let ghost body = signed_body(s@);
        let b = s[i];
        if b < DIGIT_ZERO || b > 57 {
            proof {
                assert(body[i - start] == s@[i as int]);
                assert(!is_digit(body[i - start]));
                assert(!all_digits(body));
            }
            return None;
        }
        let ghost prev = s@.subrange(start as int, i as int);
        acc = acc * 10 + ((b - DIGIT_ZERO) as u128);
        i += 1;
        proof {
            let cur = s@.subrange(start as int, i as int);
            assert(cur.drop_last() =~= prev);
            assert(cur.last() == b);
            assert(acc == digits_value(cur));
        }
        if acc > 2147483648u128 {
            proof {
                let cur = s@.subrange(start as int, i as int);
                if all_digits(body) {
                    assert(cur =~= body.take(i - start));
                    lemma_digits_value_prefix(body, i - start);
                    assert(digits_value(body) > 2147483648);
                }
            }
            return None;
        }
    }
    proof {
        assert(s@.subrange(start as int, i as int) =~= signed_body(s@));
    }
    if negative {
        if acc == 2147483648u128 {
            Some(i32::MIN)
        } else {
            Some(-((acc as u32) as i32))
        }
    } else {
        if acc > i32::MAX as u128 {
            None
        } else {
            Some(acc as i32)
        }
    }
}

} // verus!
