//! Byte-level helpers for the ASCII wire text of the protocol.
//!
//! All protocol text travels as bytes. Specifications speak about
//! `Seq<u8>`; string literals only enter through [`ascii_bytes`].

use vstd::prelude::*;

verus! {

/// The bytes of an ASCII character sequence, one byte per character.
pub open spec fn bytes_of(s: Seq<char>) -> Seq<u8> {
    s.map_values(|c: char| c as u8)
}

/// True when `p` is a prefix of `s`.
pub open spec fn starts_with(s: Seq<u8>, p: Seq<u8>) -> bool {
    p.len() <= s.len() && s.take(p.len() as int) == p
}

/// Copy an ASCII string (in practice: a protocol literal) into a byte vector.
pub fn ascii_bytes(s: &str) -> (r: Vec<u8>)
    requires
        s.is_ascii(),
    ensures
        r@ == bytes_of(s@),
{
    broadcast use vstd::string::is_ascii_spec_bytes;

    let v = s.as_bytes_vec();
    proof {
        assert(v@ =~= bytes_of(s@));
    }
    v
}

/// Byte-for-byte equality of two slices.
pub fn bytes_eq(a: &[u8], b: &[u8]) -> (r: bool)
    ensures
        r == (a@ == b@),
{
    if a.len() != b.len() {
        return false;
    }
    let n: usize = a.len();
    let mut i: usize = 0;
    while i < n
        invariant
            n == a@.len() == b@.len(),
            i <= n,
            forall|j: int| 0 <= j < i ==> a@[j] == b@[j],
        decreases n - i,
    {
        if a[i] != b[i] {
            assert(a@ != b@) by {
                assert(a@[i as int] != b@[i as int]);
            }
            return false;
        }
        i += 1;
    }
    proof {
        assert(a@ =~= b@);
    }
    true
}

/// Does `s` begin with the bytes of `p`?
pub fn has_prefix(s: &[u8], p: &[u8]) -> (r: bool)
    ensures
        r == starts_with(s@, p@),
{
    if p.len() > s.len() {
        return false;
    }
    let n: usize = p.len();
    let mut i: usize = 0;
    while i < n
        invariant
            n == p@.len() <= s@.len(),
            i <= n,
            forall|j: int| 0 <= j < i ==> s@[j] == p@[j],
        decreases n - i,
    {
        if s[i] != p[i] {
            assert(s@.take(n as int) != p@) by {
                assert(s@.take(n as int)[i as int] != p@[i as int]);
            }
            return false;
        }
        i += 1;
    }
    proof {
        assert(s@.take(n as int) =~= p@);
    }
    true
}

/// The bytes of `s` from `from` (inclusive) to `to` (exclusive), as a new vector.
pub fn sub_vec(s: &[u8], from: usize, to: usize) -> (r: Vec<u8>)
    requires
        from <= to <= s@.len(),
    ensures
        r@ == s@.subrange(from as int, to as int),
{
    let mut r: Vec<u8> = Vec::new();
    let mut i: usize = from;
    while i < to
        invariant
            from <= i <= to <= s@.len(),
            r@ == s@.subrange(from as int, i as int),
        decreases to - i,
    {
        r.push(s[i]);
        proof {
            assert(r@ =~= s@.subrange(from as int, i as int + 1));
        }
        i += 1;
    }
    r
}

} // verus!
