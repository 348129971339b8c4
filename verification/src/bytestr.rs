//! Helpers on byte strings.  The whole wire pipeline works on UTF-8 bytes;
//! these are the small verified building blocks: literal conversion,
//! equality, concatenation, ASCII case folding and decimal formatting.

use vstd::prelude::*;
use vstd::slice::slice_to_vec;
use vstd::string::StrSliceExecFns;
use vstd::string::StringSliceAdditionalSpecFns;
use vstd::utf8::encode_utf8;

verus! {

/// Capital `A`.
pub const UPPER_A: u8 = 65;

/// Capital `Z`.
pub const UPPER_Z: u8 = 90;

/// The digit `0`.
pub const DIGIT_0: u8 = 48;

/// The minus sign.
pub const MINUS: u8 = 45;

/// The UTF-8 bytes of a string literal; every constant byte string of the
/// protocol is written as a literal and taken through this.
pub fn lit(s: &str) -> (r: Vec<u8>)
    ensures
        r@ == encode_utf8(s@),
{
    s.as_bytes_vec()
}

/// Compare two byte slices for equality.
pub fn bytes_eq(a: &[u8], b: &[u8]) -> (r: bool)
    ensures
        r == (a@ == b@),
{
    if a.len() != b.len() {
        assert(a@.len() != b@.len());
        return false;
    }
    let mut i: usize = 0;
    while i < a.len()
        invariant
            i <= a@.len(),
            a@.len() == b@.len(),
            forall|j: int| 0 <= j < i ==> a@[j] == b@[j],
        decreases a@.len() - i,
    {
        if a[i] != b[i] {
            return false;
        }
        i += 1;
    }
    proof {
        assert(a@ =~= b@);
    }
    true
}

/// Append all of `src` to `dst`.
pub fn extend(dst: &mut Vec<u8>, src: &[u8])
    ensures
        final(dst)@ == old(dst)@ + src@,
{
    let mut i: usize = 0;
    while i < src.len()
        invariant
            i <= src@.len(),
            dst@ == old(dst)@ + src@.subrange(0, i as int),
        decreases src@.len() - i,
    {
        dst.push(src[i]);
        i += 1;
        proof {
            assert(dst@ =~= old(dst)@ + src@.subrange(0, i as int));
        }
    }
    proof {
        assert(src@.subrange(0, src@.len() as int) =~= src@);
    }
}

/// Concatenation of three byte strings, the common shape of messages that
/// quote an input (`prefix + quoted + suffix`).
pub fn concat3(a: &[u8], b: &[u8], c: &[u8]) -> (r: Vec<u8>)
    ensures
        r@ == a@ + b@ + c@,
{
    let mut out: Vec<u8> = Vec::new();
    extend(&mut out, a);
    extend(&mut out, b);
    extend(&mut out, c);
    proof {
        assert(out@ =~= a@ + b@ + c@);
    }
    out
}

/// ASCII lower case of one byte; other bytes are left as they are.
pub open spec fn lower_byte(b: u8) -> u8 {
    if UPPER_A <= b && b <= UPPER_Z {
        (b + 32) as u8
    } else {
        b
    }
}

/// ASCII lower case of a byte string.
pub open spec fn lower_bytes(s: Seq<u8>) -> Seq<u8> {
    s.map_values(|b: u8| lower_byte(b))
}

/// Fold a byte string to ASCII lower case.
pub fn to_lower(s: &[u8]) -> (r: Vec<u8>)
    ensures
        r@ == lower_bytes(s@),
{
    let mut out: Vec<u8> = Vec::new();
    let mut i: usize = 0;
    while i < s.len()
        invariant
            i <= s@.len(),
            out@ == lower_bytes(s@.subrange(0, i as int)),
        decreases s@.len() - i,
    {
        let b = s[i];
        if UPPER_A <= b && b <= UPPER_Z {
            out.push(b + 32);
        } else {
            out.push(b);
        }
        i += 1;
        proof {
            assert(out@ =~= lower_bytes(s@.subrange(0, i as int)));
        }
    }
    proof {
        assert(s@.subrange(0, s@.len() as int) =~= s@);
    }
    out
}

/// The decimal digits of `n`, most significant first.
pub open spec fn dec_u64(n: u64) -> Seq<u8>
    decreases n,
{
    if n < 10 {
        seq![(DIGIT_0 + n) as u8]
    } else {
        dec_u64(n / 10).push((DIGIT_0 + n % 10) as u8)
    }
}

/// The decimal rendering of a signed value: a minus sign for negatives,
/// then the digits of the magnitude.
pub open spec fn dec_i64(n: i64) -> Seq<u8> {
    if n < 0 {
        seq![MINUS].add(dec_u64((-(n as int)) as u64))
    } else {
        dec_u64(n as u64)
    }
}

/// Render `n` in decimal.
pub fn format_u64(n: u64) -> (r: Vec<u8>)
    ensures
        r@ == dec_u64(n),
    decreases n,
{
    if n < 10 {
        let mut out: Vec<u8> = Vec::new();
        out.push(DIGIT_0 + (n as u8));
        proof {
            assert(out@ =~= dec_u64(n));
        }
        out
    } else {
        let mut out = format_u64(n / 10);
        out.push(DIGIT_0 + ((n % 10) as u8));
        out
    }
}

/// Render `n` in decimal, with a leading minus sign for negatives.
pub fn format_i64(n: i64) -> (r: Vec<u8>)
    ensures
        r@ == dec_i64(n),
{
    if n < 0 {
        let mag: u64 = if n == i64::MIN {
            9223372036854775808u64
        } else {
            (-n) as u64
        };
        assert(mag == -(n as int));
        let digits = format_u64(mag);
        let mut out: Vec<u8> = Vec::new();
        out.push(MINUS);
        extend(&mut out, digits.as_slice());
        proof {
            assert(out@ =~= dec_i64(n));
        }
        out
    } else {
        format_u64(n as u64)
    }
}

/// Does `s` start with `p`?
pub fn starts_with(s: &[u8], p: &[u8]) -> (r: bool)
    ensures
        r == (s@.len() >= p@.len() && s@.subrange(0, p@.len() as int) == p@),
{
    if s.len() < p.len() {
        return false;
    }
    let mut i: usize = 0;
    while i < p.len()
        invariant
            i <= p@.len(),
            p@.len() <= s@.len(),
            forall|j: int| 0 <= j < i ==> s@[j] == p@[j],
        decreases p@.len() - i,
    {
        if s[i] != p[i] {
            assert(s@.subrange(0, p@.len() as int)[i as int] != p@[i as int]);
            return false;
        }
        i += 1;
    }
    proof {
        assert(s@.subrange(0, p@.len() as int) =~= p@);
    }
    true
}

} // verus!
