//! The inbound wire grammar and its parser.
//!
//! A frame is one JSON object with an optional string-or-null `id`, a
//! string `command` and an optional `data` member, an untyped key/value
//! document.  Any JSON value may stand anywhere: values the protocol gives
//! no meaning to — arrays and objects below the payload's fields — are
//! consumed grammatically and kept as opaque `Scalar::Composite` values,
//! which no field accessor reads anything out of.  Strings take the
//! standard JSON escapes, including `\uXXXX` with surrogate pairs; numbers
//! take the standard JSON number grammar, with integers kept exactly up to
//! `u64` range and everything else as `Scalar::NonInt`.
//!
//! The spec functions `sp_*` define the grammar as a deterministic
//! recursive-descent parse over the frame's bytes; the exec functions
//! return exactly what the spec functions denote.

use vstd::prelude::*;
use vstd::utf8::encode_utf8;
use crate::bytestr::{lit, MINUS};
use crate::command::{Command, Member, Payload, Scalar, ScalarV, CommandV, PayloadV, members_view};
use crate::wire::{BACKSLASH, QUOTE};

verus! {

/// `{`
pub const LBRACE: u8 = 123;

/// `}`
pub const RBRACE: u8 = 125;

/// `:`
pub const COLON: u8 = 58;

/// `,`
pub const COMMA: u8 = 44;

/// `/`
pub const SLASH: u8 = 47;

/// `+`
pub const PLUS: u8 = 43;

/// `.`
pub const DOT: u8 = 46;

/// `[`
pub const LBRACK: u8 = 91;

/// `]`
pub const RBRACK: u8 = 93;

/// JSON whitespace: space, tab, line feed, carriage return.
pub open spec fn is_ws(b: u8) -> bool {
    b == 32 || b == 9 || b == 10 || b == 13
}

/// The first index at or after `i` holding no whitespace.
pub open spec fn sp_ws(s: Seq<u8>, i: int) -> int
    decreases s.len() - i,
{
    if 0 <= i < s.len() && is_ws(s[i]) {
        sp_ws(s, i + 1)
    } else {
        i
    }
}

pub proof fn lemma_sp_ws_bounds(s: Seq<u8>, i: int)
    ensures
        i <= sp_ws(s, i),
        i <= s.len() ==> sp_ws(s, i) <= s.len(),
    decreases s.len() - i,
{
    if 0 <= i < s.len() && is_ws(s[i]) {
        lemma_sp_ws_bounds(s, i + 1);
    }
}

/// The whitespace bound at every position at once.
pub proof fn lemma_sp_ws_bounds_all(s: Seq<u8>)
    ensures
        forall|i: int|
            i <= #[trigger] sp_ws(s, i) && (i <= s.len() ==> sp_ws(s, i) <= s.len()),
{
    assert forall|i: int|
        i <= #[trigger] sp_ws(s, i) && (i <= s.len() ==> sp_ws(s, i) <= s.len()) by {
        lemma_sp_ws_bounds(s, i);
    }
}

/// The value of a hex digit, if `b` is one.
pub open spec fn hex_val(b: u8) -> Option<u8> {
    if 48 <= b && b <= 57 {
        Option::Some((b - 48) as u8)
    } else if 97 <= b && b <= 102 {
        Option::Some((b - 87) as u8)
    } else if 65 <= b && b <= 70 {
        Option::Some((b - 55) as u8)
    } else {
        Option::None
    }
}

/// Four hex digits at `i`, as a code unit.
pub open spec fn sp_hex4(s: Seq<u8>, i: int) -> Option<u32> {
    if 0 <= i && i + 4 <= s.len() {
        match (hex_val(s[i]), hex_val(s[i + 1]), hex_val(s[i + 2]), hex_val(s[i + 3])) {
            (Option::Some(a), Option::Some(b), Option::Some(c), Option::Some(d)) => Option::Some(
                (4096 * (a as u32) + 256 * (b as u32) + 16 * (c as u32) + (d as u32)) as u32,
            ),
            _ => Option::None,
        }
    } else {
        Option::None
    }
}

/// The UTF-8 encoding of one scalar value.
pub open spec fn utf8_enc(cp: u32) -> Seq<u8> {
    if cp < 0x80 {
        seq![cp as u8]
    } else if cp < 0x800 {
        seq![(192 + cp / 64) as u8, (128 + cp % 64) as u8]
    } else if cp < 0x10000 {
        seq![(224 + cp / 4096) as u8, (128 + (cp / 64) % 64) as u8, (128 + cp % 64) as u8]
    } else {
        seq![
            (240 + cp / 262144) as u8,
            (128 + (cp / 4096) % 64) as u8,
            (128 + (cp / 64) % 64) as u8,
            (128 + cp % 64) as u8,
        ]
    }
}

/// String body starting at `i`, which sits just after the opening quote:
/// the decoded content and the index just past the closing quote.
pub open spec fn sp_string(s: Seq<u8>, i: int) -> Option<(Seq<u8>, int)>
    decreases s.len() - i,
{
    if !(0 <= i < s.len()) {
        Option::None
    } else {
        let b = s[i];
        if b == QUOTE {
            Option::Some((Seq::empty(), i + 1))
        } else if b == BACKSLASH {
            if i + 1 >= s.len() {
                Option::None
            } else {
                let e = s[i + 1];
                if e == QUOTE || e == BACKSLASH || e == SLASH {
                    match sp_string(s, i + 2) {
                        Option::None => Option::None,
                        Option::Some((c, j)) => Option::Some((seq![e] + c, j)),
                    }
                } else if e == 98 || e == 116 || e == 110 || e == 102 || e == 114 {
                    let d: u8 = if e == 98 {
                        8
                    } else if e == 116 {
                        9
                    } else if e == 110 {
                        10
                    } else if e == 102 {
                        12
                    } else {
                        13
                    };
                    match sp_string(s, i + 2) {
                        Option::None => Option::None,
                        Option::Some((c, j)) => Option::Some((seq![d] + c, j)),
                    }
                } else if e == 117 {
                    match sp_hex4(s, i + 2) {
                        Option::None => Option::None,
                        Option::Some(cp) => {
                            if 0xD800 <= cp && cp < 0xDC00 {
                                // a leading surrogate must be followed by a
                                // trailing one; the pair names one scalar
                                if i + 12 <= s.len() && s[i + 6] == BACKSLASH && s[i + 7] == 117 {
                                    match sp_hex4(s, i + 8) {
                                        Option::None => Option::None,
                                        Option::Some(lo) => {
                                            if 0xDC00 <= lo && lo < 0xE000 {
                                                let scalar = (0x10000 + (cp - 0xD800) * 0x400 + (lo
                                                    - 0xDC00)) as u32;
                                                match sp_string(s, i + 12) {
                                                    Option::None => Option::None,
                                                    Option::Some((c, j)) => Option::Some(
                                                        (utf8_enc(scalar) + c, j),
                                                    ),
                                                }
                                            } else {
                                                Option::None
                                            }
                                        },
                                    }
                                } else {
                                    Option::None
                                }
                            } else if 0xDC00 <= cp && cp < 0xE000 {
                                Option::None
                            } else {
                                if i + 6 <= s.len() {
                                    match sp_string(s, i + 6) {
                                        Option::None => Option::None,
                                        Option::Some((c, j)) => Option::Some((utf8_enc(cp) + c, j)),
                                    }
                                } else {
                                    Option::None
                                }
                            }
                        },
                    }
                } else {
                    Option::None
                }
            }
        } else if b < 32 {
            Option::None
        } else {
            match sp_string(s, i + 1) {
                Option::None => Option::None,
                Option::Some((c, j)) => Option::Some((seq![b] + c, j)),
            }
        }
    }
}

pub proof fn lemma_sp_string_bounds(s: Seq<u8>, i: int)
    ensures
        match sp_string(s, i) {
            Option::None => true,
            Option::Some((c, j)) => i < j <= s.len(),
        },
    decreases s.len() - i,
{
    if 0 <= i < s.len() {
        if s[i] == BACKSLASH && i + 1 < s.len() {
            lemma_sp_string_bounds(s, i + 2);
            if i + 6 <= s.len() {
                lemma_sp_string_bounds(s, i + 6);
            }
            if i + 12 <= s.len() {
                lemma_sp_string_bounds(s, i + 12);
            }
        } else {
            lemma_sp_string_bounds(s, i + 1);
        }
    }
}

/// A digit byte.
pub open spec fn is_digit(b: u8) -> bool {
    48 <= b && b <= 57
}

/// The end of the digit run starting at `i`.
pub open spec fn sp_digits(s: Seq<u8>, i: int) -> int
    decreases s.len() - i,
{
    if 0 <= i < s.len() && is_digit(s[i]) {
        sp_digits(s, i + 1)
    } else {
        i
    }
}

pub proof fn lemma_sp_digits_bounds(s: Seq<u8>, i: int)
    ensures
        i <= sp_digits(s, i),
        i <= s.len() ==> sp_digits(s, i) <= s.len(),
    decreases s.len() - i,
{
    if 0 <= i < s.len() && is_digit(s[i]) {
        lemma_sp_digits_bounds(s, i + 1);
    }
}

/// Every byte of a digit run is a digit.
pub proof fn lemma_sp_digits_all(s: Seq<u8>, i: int)
    ensures
        forall|k: int| i <= k < sp_digits(s, i) ==> is_digit(#[trigger] s[k]),
    decreases s.len() - i,
{
    if 0 <= i < s.len() && is_digit(s[i]) {
        lemma_sp_digits_all(s, i + 1);
    }
}

/// The value of a run of digit bytes.
pub open spec fn dval(ds: Seq<u8>) -> int
    decreases ds.len(),
{
    if ds.len() == 0 {
        0
    } else {
        dval(ds.drop_last()) * 10 + (ds.last() - 48)
    }
}

pub proof fn lemma_dval_nonneg(ds: Seq<u8>)
    requires
        forall|k: int| 0 <= k < ds.len() ==> is_digit(#[trigger] ds[k]),
    ensures
        dval(ds) >= 0,
    decreases ds.len(),
{
    if ds.len() > 0 {
        lemma_dval_nonneg(ds.drop_last());
    }
}

/// The end of an optional fraction part at `i`: `.` must be followed by at
/// least one digit.
pub open spec fn sp_frac(s: Seq<u8>, i: int) -> Option<int> {
    if 0 <= i < s.len() && s[i] == DOT {
        if i + 1 < s.len() && is_digit(s[i + 1]) {
            Option::Some(sp_digits(s, i + 1))
        } else {
            Option::None
        }
    } else {
        Option::Some(i)
    }
}

/// The end of an optional exponent part at `i`.
pub open spec fn sp_exp(s: Seq<u8>, i: int) -> Option<int> {
    if 0 <= i < s.len() && (s[i] == 101 || s[i] == 69) {
        let j = if i + 1 < s.len() && (s[i + 1] == PLUS || s[i + 1] == MINUS) {
            i + 2
        } else {
            i + 1
        };
        if j < s.len() && is_digit(s[j]) {
            Option::Some(sp_digits(s, j))
        } else {
            Option::None
        }
    } else {
        Option::Some(i)
    }
}

/// A number token at `i`: sign, integer part without leading zeros, optional
/// fraction and exponent.  The value is `Int` exactly when there is no
/// fraction or exponent and the magnitude fits `i64`.
pub open spec fn sp_number(s: Seq<u8>, i: int) -> Option<(ScalarV, int)> {
    let neg = 0 <= i < s.len() && s[i] == MINUS;
    let i1 = if neg {
        i + 1
    } else {
        i
    };
    if !(0 <= i1 < s.len() && is_digit(s[i1])) {
        Option::None
    } else if s[i1] == 48 && i1 + 1 < s.len() && is_digit(s[i1 + 1]) {
        Option::None
    } else {
        let d_end = sp_digits(s, i1);
        match sp_frac(s, d_end) {
            Option::None => Option::None,
            Option::Some(f_end) => match sp_exp(s, f_end) {
                Option::None => Option::None,
                Option::Some(x_end) => {
                    if f_end != d_end || x_end != f_end {
                        Option::Some((ScalarV::NonInt, x_end))
                    } else {
                        let v = dval(s.subrange(i1, d_end));
                        if neg {
                            if v <= 0x8000000000000000 {
                                Option::Some((ScalarV::Int((-v) as i64), x_end))
                            } else {
                                Option::Some((ScalarV::NonInt, x_end))
                            }
                        } else {
                            if v <= 0x7fffffffffffffff {
                                Option::Some((ScalarV::Int(v as i64), x_end))
                            } else if v <= 0xffffffffffffffff {
                                Option::Some((ScalarV::Big(v as u64), x_end))
                            } else {
                                Option::Some((ScalarV::NonInt, x_end))
                            }
                        }
                    }
                },
            },
        }
    }
}

pub proof fn lemma_sp_number_bounds(s: Seq<u8>, i: int)
    requires
        0 <= i <= s.len(),
    ensures
        match sp_number(s, i) {
            Option::None => true,
            Option::Some((v, j)) => i < j <= s.len(),
        },
{
    let neg = 0 <= i < s.len() && s[i] == MINUS;
    let i1: int = if neg {
        i + 1
    } else {
        i
    };
    if 0 <= i1 < s.len() && is_digit(s[i1]) {
        lemma_sp_digits_bounds(s, i1);
        let d_end = sp_digits(s, i1);
        assert(i1 < d_end) by {
            assert(sp_digits(s, i1) == sp_digits(s, i1 + 1));
            lemma_sp_digits_bounds(s, i1 + 1);
        }
        if sp_frac(s, d_end) is Some {
            let f_end = sp_frac(s, d_end)->Some_0;
            assert(d_end <= f_end <= s.len()) by {
                if 0 <= d_end < s.len() && s[d_end] == DOT {
                    lemma_sp_digits_bounds(s, d_end + 1);
                }
            }
            if sp_exp(s, f_end) is Some {
                let x_end = sp_exp(s, f_end)->Some_0;
                assert(f_end <= x_end <= s.len()) by {
                    if 0 <= f_end < s.len() && (s[f_end] == 101 || s[f_end] == 69) {
                        let j = if f_end + 1 < s.len() && (s[f_end + 1] == PLUS || s[f_end + 1]
                            == MINUS) {
                            f_end + 2
                        } else {
                            f_end + 1
                        };
                        lemma_sp_digits_bounds(s, j);
                    }
                }
            }
        }
    }
}

/// Does the word `w` stand at `i`?
pub open spec fn sp_word(s: Seq<u8>, i: int, w: Seq<u8>) -> bool {
    0 <= i && i + w.len() <= s.len() && s.subrange(i, i + w.len()) == w
}

/// A scalar value at `i`: a string, a number, or one of the three literal
/// words.
pub open spec fn sp_scalar(s: Seq<u8>, i: int) -> Option<(ScalarV, int)> {
    if !(0 <= i < s.len()) {
        Option::None
    } else {
        let b = s[i];
        if b == QUOTE {
            match sp_string(s, i + 1) {
                Option::None => Option::None,
                Option::Some((c, j)) => Option::Some((ScalarV::Str(c), j)),
            }
        } else if b == MINUS || is_digit(b) {
            sp_number(s, i)
        } else if sp_word(s, i, encode_utf8("true"@)) {
            Option::Some((ScalarV::Bool(true), i + encode_utf8("true"@).len() as int))
        } else if sp_word(s, i, encode_utf8("false"@)) {
            Option::Some((ScalarV::Bool(false), i + encode_utf8("false"@).len() as int))
        } else if sp_word(s, i, encode_utf8("null"@)) {
            Option::Some((ScalarV::Null, i + encode_utf8("null"@).len() as int))
        } else {
            Option::None
        }
    }
}

/// A non-empty character sequence encodes to a non-empty byte sequence.
pub proof fn lemma_encode_nonempty(cs: Seq<char>)
    ensures
        cs.len() > 0 ==> encode_utf8(cs).len() > 0,
{
    if cs.len() > 0 {
        assert(encode_utf8(cs) == vstd::utf8::encode_scalar(cs[0] as u32) + encode_utf8(
            cs.drop_first(),
        ));
    }
}

pub proof fn lemma_sp_scalar_bounds(s: Seq<u8>, i: int)
    requires
        0 <= i <= s.len(),
    ensures
        match sp_scalar(s, i) {
            Option::None => true,
            Option::Some((v, j)) => i < j <= s.len(),
        },
{
    if 0 <= i < s.len() {
        lemma_sp_string_bounds(s, i + 1);
        lemma_sp_number_bounds(s, i);
        reveal_strlit("true");
        reveal_strlit("false");
        reveal_strlit("null");
        lemma_encode_nonempty("true"@);
        lemma_encode_nonempty("false"@);
        lemma_encode_nonempty("null"@);
    }
}

/// Consume any JSON value at `i` — a scalar, an object or an array —
/// keeping only where it ends.  This is how values the protocol gives no
/// meaning to are accepted: they must be grammatical, and nothing else.
pub open spec fn sp_skip_value(s: Seq<u8>, i: int) -> Option<int>
    decreases s.len() - i, 0int,
    via sp_skip_value_dec
{
    if !(0 <= i < s.len()) {
        Option::None
    } else if s[i] == LBRACE {
        let j = sp_ws(s, i + 1);
        if j < s.len() && s[j] == RBRACE {
            Option::Some(j + 1)
        } else {
            sp_skip_members(s, j)
        }
    } else if s[i] == LBRACK {
        let j = sp_ws(s, i + 1);
        if j < s.len() && s[j] == RBRACK {
            Option::Some(j + 1)
        } else {
            sp_skip_elems(s, j)
        }
    } else {
        match sp_scalar(s, i) {
            Option::None => Option::None,
            Option::Some((v, j)) => Option::Some(j),
        }
    }
}

/// Consume the member list of an object being skipped, starting at the
/// first key's opening quote.  The position guard after each value is
/// definitionally redundant — a consumed value always ends past where it
/// began — and keeps the recursion visibly well founded.
pub open spec fn sp_skip_members(s: Seq<u8>, i: int) -> Option<int>
    decreases s.len() - i, 0int,
    via sp_skip_members_dec
{
    if !(0 <= i < s.len() && s[i] == QUOTE) {
        Option::None
    } else {
        match sp_string(s, i + 1) {
            Option::None => Option::None,
            Option::Some((k, j1)) => {
                let j2 = sp_ws(s, j1);
                if !(j2 < s.len() && s[j2] == COLON) {
                    Option::None
                } else {
                    let j3 = sp_ws(s, j2 + 1);
                    match sp_skip_value(s, j3) {
                        Option::None => Option::None,
                        Option::Some(j4) => {
                            if !(j3 < j4 <= s.len()) {
                                Option::None
                            } else {
                                let j5 = sp_ws(s, j4);
                                if j5 < s.len() && s[j5] == COMMA {
                                    let j6 = sp_ws(s, j5 + 1);
                                    sp_skip_members(s, j6)
                                } else if j5 < s.len() && s[j5] == RBRACE {
                                    Option::Some(j5 + 1)
                                } else {
                                    Option::None
                                }
                            }
                        },
                    }
                }
            },
        }
    }
}

/// Consume the element list of an array being skipped, starting at the
/// first element.
pub open spec fn sp_skip_elems(s: Seq<u8>, i: int) -> Option<int>
    decreases s.len() - i, 1int,
    via sp_skip_elems_dec
{
    if !(0 <= i <= s.len()) {
        Option::None
    } else {
        match sp_skip_value(s, i) {
            Option::None => Option::None,
            Option::Some(j) => {
                if !(i < j <= s.len()) {
                    Option::None
                } else {
                    let j2 = sp_ws(s, j);
                    if j2 < s.len() && s[j2] == COMMA {
                        let j3 = sp_ws(s, j2 + 1);
                        sp_skip_elems(s, j3)
                    } else if j2 < s.len() && s[j2] == RBRACK {
                        Option::Some(j2 + 1)
                    } else {
                        Option::None
                    }
                }
            },
        }
    }
}

#[via_fn]
proof fn sp_skip_value_dec(s: Seq<u8>, i: int) {
    lemma_sp_ws_bounds_all(s);
}

#[via_fn]
proof fn sp_skip_members_dec(s: Seq<u8>, i: int) {
    lemma_sp_ws_bounds_all(s);
    lemma_sp_string_bounds(s, i + 1);
}

#[via_fn]
proof fn sp_skip_elems_dec(s: Seq<u8>, i: int) {
    lemma_sp_ws_bounds_all(s);
}

pub proof fn lemma_sp_skip_value_bounds(s: Seq<u8>, i: int)
    ensures
        match sp_skip_value(s, i) {
            Option::None => true,
            Option::Some(j) => i < j <= s.len(),
        },
    decreases s.len() - i, 0int,
{
    if 0 <= i < s.len() {
        if s[i] == LBRACE || s[i] == LBRACK {
            lemma_sp_ws_bounds(s, i + 1);
            let j = sp_ws(s, i + 1);
            if s[i] == LBRACE {
                lemma_sp_skip_members_bounds(s, j);
            } else {
                lemma_sp_skip_elems_bounds(s, j);
            }
        } else {
            lemma_sp_scalar_bounds(s, i);
        }
    }
}

pub proof fn lemma_sp_skip_members_bounds(s: Seq<u8>, i: int)
    ensures
        match sp_skip_members(s, i) {
            Option::None => true,
            Option::Some(j) => i < j <= s.len(),
        },
    decreases s.len() - i, 0int,
{
    if 0 <= i < s.len() && s[i] == QUOTE {
        lemma_sp_string_bounds(s, i + 1);
        match sp_string(s, i + 1) {
            Option::None => {},
            Option::Some((k, j1)) => {
                lemma_sp_ws_bounds(s, j1);
                let j2 = sp_ws(s, j1);
                if j2 < s.len() && s[j2] == COLON {
                    lemma_sp_ws_bounds(s, j2 + 1);
                    let j3 = sp_ws(s, j2 + 1);
                    match sp_skip_value(s, j3) {
                        Option::None => {},
                        Option::Some(j4) => {
                            if j3 < j4 <= s.len() {
                                lemma_sp_ws_bounds(s, j4);
                                let j5 = sp_ws(s, j4);
                                if j5 < s.len() && s[j5] == COMMA {
                                    lemma_sp_ws_bounds(s, j5 + 1);
                                    let j6 = sp_ws(s, j5 + 1);
                                    lemma_sp_skip_members_bounds(s, j6);
                                }
                            }
                        },
                    }
                }
            },
        }
    }
}

pub proof fn lemma_sp_skip_elems_bounds(s: Seq<u8>, i: int)
    ensures
        match sp_skip_elems(s, i) {
            Option::None => true,
            Option::Some(j) => i < j <= s.len(),
        },
    decreases s.len() - i, 1int,
{
    if 0 <= i <= s.len() {
        lemma_sp_skip_value_bounds(s, i);
        match sp_skip_value(s, i) {
            Option::None => {},
            Option::Some(j) => {
                if i < j <= s.len() {
                    lemma_sp_ws_bounds(s, j);
                    let j2 = sp_ws(s, j);
                    if j2 < s.len() && s[j2] == COMMA {
                        lemma_sp_ws_bounds(s, j2 + 1);
                        let j3 = sp_ws(s, j2 + 1);
                        lemma_sp_skip_elems_bounds(s, j3);
                    }
                }
            },
        }
    }
}

/// A value inside the payload object: a true scalar stays itself; an
/// object or array is consumed and kept as an opaque composite.
pub open spec fn sp_inner_value(s: Seq<u8>, i: int) -> Option<(ScalarV, int)> {
    if 0 <= i < s.len() && (s[i] == LBRACE || s[i] == LBRACK) {
        match sp_skip_value(s, i) {
            Option::None => Option::None,
            Option::Some(j) => Option::Some((ScalarV::Composite, j)),
        }
    } else {
        sp_scalar(s, i)
    }
}

pub proof fn lemma_sp_inner_value_bounds(s: Seq<u8>, i: int)
    requires
        0 <= i <= s.len(),
    ensures
        match sp_inner_value(s, i) {
            Option::None => true,
            Option::Some((v, j)) => i < j <= s.len(),
        },
{
    lemma_sp_skip_value_bounds(s, i);
    lemma_sp_scalar_bounds(s, i);
}

/// A top-level member's value: a scalar, or a flat object of scalars.
pub enum TopV {
    Sc(ScalarV),
    Ob(Seq<(Seq<u8>, ScalarV)>),
}

/// The member list of a payload object, starting at the first key's
/// opening quote (whitespace already skipped, list known non-empty): pairs
/// of key and value, and the index just past the closing brace.
pub open spec fn sp_members(s: Seq<u8>, i: int) -> Option<(Seq<(Seq<u8>, ScalarV)>, int)>
    decreases s.len() - i,
    via sp_members_dec
{
    if !(0 <= i < s.len() && s[i] == QUOTE) {
        Option::None
    } else {
        match sp_string(s, i + 1) {
            Option::None => Option::None,
            Option::Some((k, j1)) => {
                let j2 = sp_ws(s, j1);
                if !(j2 < s.len() && s[j2] == COLON) {
                    Option::None
                } else {
                    let j3 = sp_ws(s, j2 + 1);
                    match sp_inner_value(s, j3) {
                        Option::None => Option::None,
                        Option::Some((v, j4)) => {
                            let j5 = sp_ws(s, j4);
                            if j5 < s.len() && s[j5] == COMMA {
                                let j6 = sp_ws(s, j5 + 1);
                                match sp_members(s, j6) {
                                    Option::None => Option::None,
                                    Option::Some((rest, j7)) => Option::Some(
                                        (seq![(k, v)] + rest, j7),
                                    ),
                                }
                            } else if j5 < s.len() && s[j5] == RBRACE {
                                Option::Some((seq![(k, v)], j5 + 1))
                            } else {
                                Option::None
                            }
                        },
                    }
                }
            },
        }
    }
}

#[via_fn]
proof fn sp_members_dec(s: Seq<u8>, i: int) {
    if 0 <= i < s.len() && s[i] == QUOTE {
        lemma_sp_string_bounds(s, i + 1);
        match sp_string(s, i + 1) {
            Option::None => {},
            Option::Some((k, j1)) => {
                lemma_sp_ws_bounds(s, j1);
                let j2 = sp_ws(s, j1);
                if j2 < s.len() && s[j2] == COLON {
                    lemma_sp_ws_bounds(s, j2 + 1);
                    let j3 = sp_ws(s, j2 + 1);
                    lemma_sp_inner_value_bounds(s, j3);
                    match sp_inner_value(s, j3) {
                        Option::None => {},
                        Option::Some((v, j4)) => {
                            lemma_sp_ws_bounds(s, j4);
                            let j5 = sp_ws(s, j4);
                            if j5 < s.len() && s[j5] == COMMA {
                                lemma_sp_ws_bounds(s, j5 + 1);
                            }
                        },
                    }
                }
            },
        }
    }
}

pub proof fn lemma_sp_members_bounds(s: Seq<u8>, i: int)
    ensures
        match sp_members(s, i) {
            Option::None => true,
            Option::Some((ms, j)) => i < j <= s.len(),
        },
    decreases s.len() - i,
{
    if 0 <= i < s.len() && s[i] == QUOTE {
        lemma_sp_string_bounds(s, i + 1);
        match sp_string(s, i + 1) {
            Option::None => {},
            Option::Some((k, j1)) => {
                lemma_sp_ws_bounds(s, j1);
                let j2 = sp_ws(s, j1);
                if j2 < s.len() && s[j2] == COLON {
                    lemma_sp_ws_bounds(s, j2 + 1);
                    let j3 = sp_ws(s, j2 + 1);
                    lemma_sp_inner_value_bounds(s, j3);
                    match sp_inner_value(s, j3) {
                        Option::None => {},
                        Option::Some((v, j4)) => {
                            lemma_sp_ws_bounds(s, j4);
                            let j5 = sp_ws(s, j4);
                            if j5 < s.len() && s[j5] == COMMA {
                                lemma_sp_ws_bounds(s, j5 + 1);
                                let j6 = sp_ws(s, j5 + 1);
                                lemma_sp_members_bounds(s, j6);
                            }
                        },
                    }
                }
            },
        }
    }
}

/// A top-level member's value at `i`: an object (possibly empty, its
/// members kept for the payload), an array (consumed, kept as an opaque
/// composite), or a scalar.
pub open spec fn sp_top_value(s: Seq<u8>, i: int) -> Option<(TopV, int)> {
    if !(0 <= i < s.len()) {
        Option::None
    } else if s[i] == LBRACE {
        let j = sp_ws(s, i + 1);
        if j < s.len() && s[j] == RBRACE {
            Option::Some((TopV::Ob(Seq::empty()), j + 1))
        } else {
            match sp_members(s, j) {
                Option::None => Option::None,
                Option::Some((ms, j2)) => Option::Some((TopV::Ob(ms), j2)),
            }
        }
    } else if s[i] == LBRACK {
        match sp_skip_value(s, i) {
            Option::None => Option::None,
            Option::Some(j) => Option::Some((TopV::Sc(ScalarV::Composite), j)),
        }
    } else {
        match sp_scalar(s, i) {
            Option::None => Option::None,
            Option::Some((v, j)) => Option::Some((TopV::Sc(v), j)),
        }
    }
}

pub proof fn lemma_sp_top_value_bounds(s: Seq<u8>, i: int)
    requires
        0 <= i <= s.len(),
    ensures
        match sp_top_value(s, i) {
            Option::None => true,
            Option::Some((v, j)) => i < j <= s.len(),
        },
{
    if 0 <= i < s.len() {
        if s[i] == LBRACE {
            lemma_sp_ws_bounds(s, i + 1);
            lemma_sp_members_bounds(s, sp_ws(s, i + 1));
        } else if s[i] == LBRACK {
            lemma_sp_skip_value_bounds(s, i);
        } else {
            lemma_sp_scalar_bounds(s, i);
        }
    }
}

/// The member list of the top-level frame object, starting at the first
/// key's opening quote: pairs of key and top-level value, and the index
/// just past the closing brace.
pub open spec fn sp_top_members(s: Seq<u8>, i: int) -> Option<(Seq<(Seq<u8>, TopV)>, int)>
    decreases s.len() - i,
    via sp_top_members_dec
{
    if !(0 <= i < s.len() && s[i] == QUOTE) {
        Option::None
    } else {
        match sp_string(s, i + 1) {
            Option::None => Option::None,
            Option::Some((k, j1)) => {
                let j2 = sp_ws(s, j1);
                if !(j2 < s.len() && s[j2] == COLON) {
                    Option::None
                } else {
                    let j3 = sp_ws(s, j2 + 1);
                    match sp_top_value(s, j3) {
                        Option::None => Option::None,
                        Option::Some((v, j4)) => {
                            let j5 = sp_ws(s, j4);
                            if j5 < s.len() && s[j5] == COMMA {
                                let j6 = sp_ws(s, j5 + 1);
                                match sp_top_members(s, j6) {
                                    Option::None => Option::None,
                                    Option::Some((rest, j7)) => Option::Some(
                                        (seq![(k, v)] + rest, j7),
                                    ),
                                }
                            } else if j5 < s.len() && s[j5] == RBRACE {
                                Option::Some((seq![(k, v)], j5 + 1))
                            } else {
                                Option::None
                            }
                        },
                    }
                }
            },
        }
    }
}

#[via_fn]
proof fn sp_top_members_dec(s: Seq<u8>, i: int) {
    if 0 <= i < s.len() && s[i] == QUOTE {
        lemma_sp_string_bounds(s, i + 1);
        match sp_string(s, i + 1) {
            Option::None => {},
            Option::Some((k, j1)) => {
                lemma_sp_ws_bounds(s, j1);
                let j2 = sp_ws(s, j1);
                if j2 < s.len() && s[j2] == COLON {
                    lemma_sp_ws_bounds(s, j2 + 1);
                    let j3 = sp_ws(s, j2 + 1);
                    lemma_sp_top_value_bounds(s, j3);
                    match sp_top_value(s, j3) {
                        Option::None => {},
                        Option::Some((v, j4)) => {
                            lemma_sp_ws_bounds(s, j4);
                            let j5 = sp_ws(s, j4);
                            if j5 < s.len() && s[j5] == COMMA {
                                lemma_sp_ws_bounds(s, j5 + 1);
                            }
                        },
                    }
                }
            },
        }
    }
}

/// How often key `k` occurs among the top-level members.
pub open spec fn count_key(ms: Seq<(Seq<u8>, TopV)>, k: Seq<u8>) -> int
    decreases ms.len(),
{
    if ms.len() == 0 {
        0
    } else {
        (if ms[0].0 == k {
            1int
        } else {
            0int
        }) + count_key(ms.drop_first(), k)
    }
}

/// The first member with key `k`.
pub open spec fn find_key(ms: Seq<(Seq<u8>, TopV)>, k: Seq<u8>) -> Option<TopV>
    decreases ms.len(),
{
    if ms.len() == 0 {
        Option::None
    } else if ms[0].0 == k {
        Option::Some(ms[0].1)
    } else {
        find_key(ms.drop_first(), k)
    }
}

/// The `id` member read as an optional correlation id: absent or null is
/// none, a string is itself, anything else is a type error.
pub open spec fn read_id(v: Option<TopV>) -> Option<Option<Seq<u8>>> {
    match v {
        Option::None => Option::Some(Option::None),
        Option::Some(TopV::Sc(ScalarV::Null)) => Option::Some(Option::None),
        Option::Some(TopV::Sc(ScalarV::Str(s))) => Option::Some(Option::Some(s)),
        _ => Option::None,
    }
}

/// The `command` member read as the command name: it must be present and a
/// string.
pub open spec fn read_name(v: Option<TopV>) -> Option<Seq<u8>> {
    match v {
        Option::Some(TopV::Sc(ScalarV::Str(n))) => Option::Some(n),
        _ => Option::None,
    }
}

/// The `data` member read as the payload: absent or null is none, an object
/// carries its members, any other value is a payload no field can be read
/// from.
pub open spec fn read_data(v: Option<TopV>) -> Option<PayloadV> {
    match v {
        Option::None => Option::None,
        Option::Some(TopV::Sc(ScalarV::Null)) => Option::None,
        Option::Some(TopV::Ob(ms)) => Option::Some(PayloadV::Object(ms)),
        Option::Some(TopV::Sc(_)) => Option::Some(PayloadV::NonObject),
    }
}

/// The `id` key.
pub open spec fn key_id() -> Seq<u8> {
    encode_utf8("id"@)
}

/// The `command` key.
pub open spec fn key_command() -> Seq<u8> {
    encode_utf8("command"@)
}

/// The `data` key.
pub open spec fn key_data() -> Seq<u8> {
    encode_utf8("data"@)
}

/// The command a top-level member list denotes: each of the three known
/// keys at most once, `command` present as a string, `id` a string or null
/// if present; other keys are ignored.
pub open spec fn sp_extract(ms: Seq<(Seq<u8>, TopV)>) -> Option<CommandV> {
    if count_key(ms, key_id()) > 1 || count_key(ms, key_command()) > 1 || count_key(
        ms,
        key_data(),
    ) > 1 {
        Option::None
    } else {
        match (read_id(find_key(ms, key_id())), read_name(find_key(ms, key_command()))) {
            (Option::Some(id), Option::Some(n)) => Option::Some(
                CommandV { id, name: n, data: read_data(find_key(ms, key_data())) },
            ),
            _ => Option::None,
        }
    }
}

/// Continue a string parse: prepend already-decoded content to the result.
pub open spec fn str_cont(r: Option<(Seq<u8>, int)>, pre: Seq<u8>) -> Option<(Seq<u8>, int)> {
    match r {
        Option::None => Option::None,
        Option::Some((c, j)) => Option::Some((pre + c, j)),
    }
}

proof fn lemma_str_cont_empty(r: Option<(Seq<u8>, int)>)
    ensures
        str_cont(r, Seq::empty()) == r,
{
    match r {
        Option::None => {},
        Option::Some((c, j)) => {
            assert(Seq::<u8>::empty() + c =~= c);
        },
    }
}

proof fn lemma_str_cont_assoc(r: Option<(Seq<u8>, int)>, pre: Seq<u8>, mid: Seq<u8>)
    ensures
        str_cont(str_cont(r, mid), pre) == str_cont(r, pre + mid),
{
    match r {
        Option::None => {},
        Option::Some((c, j)) => {
            assert(pre + (mid + c) =~= (pre + mid) + c);
        },
    }
}

/// Skip whitespace from `i`.
fn skip_ws(s: &[u8], i: usize) -> (j: usize)
    requires
        i <= s@.len(),
    ensures
        j as int == sp_ws(s@, i as int),
        i <= j <= s@.len(),
{
    let mut j: usize = i;
    while j < s.len() && (s[j] == 32 || s[j] == 9 || s[j] == 10 || s[j] == 13)
        invariant
            i <= j <= s@.len(),
            sp_ws(s@, i as int) == sp_ws(s@, j as int),
        decreases s@.len() - j,
    {
        j += 1;
    }
    j
}

/// The hex digit at `i`, if any.
fn hex_digit_at(s: &[u8], i: usize) -> (r: Option<u8>)
    requires
        i < s@.len(),
    ensures
        r == hex_val(s@[i as int]),
{
    let b = s[i];
    if 48 <= b && b <= 57 {
        Option::Some(b - 48)
    } else if 97 <= b && b <= 102 {
        Option::Some(b - 87)
    } else if 65 <= b && b <= 70 {
        Option::Some(b - 55)
    } else {
        Option::None
    }
}

/// Four hex digits at `i`.
fn parse_hex4(s: &[u8], i: usize) -> (r: Option<u32>)
    requires
        i <= s@.len(),
    ensures
        r == sp_hex4(s@, i as int),
{
    if s.len() - i < 4 {
        return Option::None;
    }
    let a = hex_digit_at(s, i);
    let b = hex_digit_at(s, i + 1);
    let c = hex_digit_at(s, i + 2);
    let d = hex_digit_at(s, i + 3);
    match (a, b, c, d) {
        (Option::Some(a), Option::Some(b), Option::Some(c), Option::Some(d)) => Option::Some(
            4096 * (a as u32) + 256 * (b as u32) + 16 * (c as u32) + (d as u32),
        ),
        _ => Option::None,
    }
}

/// Append the UTF-8 encoding of one scalar value.
fn push_utf8(out: &mut Vec<u8>, cp: u32)
    requires
        cp < 0x110000,
    ensures
        final(out)@ == old(out)@ + utf8_enc(cp),
{
    if cp < 0x80 {
        out.push(cp as u8);
    } else if cp < 0x800 {
        out.push((192 + cp / 64) as u8);
        out.push((128 + cp % 64) as u8);
    } else if cp < 0x10000 {
        out.push((224 + cp / 4096) as u8);
        out.push((128 + (cp / 64) % 64) as u8);
        out.push((128 + cp % 64) as u8);
    } else {
        out.push((240 + cp / 262144) as u8);
        out.push((128 + (cp / 4096) % 64) as u8);
        out.push((128 + (cp / 64) % 64) as u8);
        out.push((128 + cp % 64) as u8);
    }
    proof {
        assert(final(out)@ =~= old(out)@ + utf8_enc(cp));
    }
}

/// Parse a string body starting just after the opening quote.
fn parse_string(s: &[u8], i: usize) -> (r: Option<(Vec<u8>, usize)>)
    requires
        i <= s@.len(),
    ensures
        match r {
            Option::None => sp_string(s@, i as int) is None,
            Option::Some((c, j)) => sp_string(s@, i as int) == Option::Some((c@, j as int)) && i < j
                <= s@.len(),
        },
{
    let ghost i0 = i as int;
    let mut pos: usize = i;
    let mut acc: Vec<u8> = Vec::new();
    proof {
        lemma_str_cont_empty(sp_string(s@, i0));
        lemma_sp_string_bounds(s@, i0);
    }
    loop
        invariant
            i <= pos <= s@.len(),
            sp_string(s@, i0) == str_cont(sp_string(s@, pos as int), acc@),
            i0 == i as int,
        decreases s@.len() - pos,
    {
        if pos >= s.len() {
            return Option::None;
        }
        let b = s[pos];
        if b == QUOTE {
            proof {
                assert(sp_string(s@, pos as int) == Option::Some(
                    (Seq::<u8>::empty(), pos as int + 1),
                ));
                assert(acc@ + Seq::<u8>::empty() =~= acc@);
                lemma_sp_string_bounds(s@, i0);
            }
            return Option::Some((acc, pos + 1));
        } else if b == BACKSLASH {
            if s.len() - pos < 2 {
                return Option::None;
            }
            let e = s[pos + 1];
            if e == QUOTE || e == BACKSLASH || e == SLASH {
                proof {
                    lemma_str_cont_assoc(sp_string(s@, pos as int + 2), acc@, seq![e]);
                }
                acc.push(e);
                pos += 2;
            } else if e == 98 || e == 116 || e == 110 || e == 102 || e == 114 {
                let d: u8 = if e == 98 {
                    8
                } else if e == 116 {
                    9
                } else if e == 110 {
                    10
                } else if e == 102 {
                    12
                } else {
                    13
                };
                proof {
                    lemma_str_cont_assoc(sp_string(s@, pos as int + 2), acc@, seq![d]);
                }
                acc.push(d);
                pos += 2;
            } else if e == 117 {
                let cp_opt = parse_hex4(s, pos + 2);
                match cp_opt {
                    Option::None => {
                        return Option::None;
                    },
                    Option::Some(cp) => {
                        if 0xD800 <= cp && cp < 0xDC00 {
                            if s.len() - pos >= 12 && s[pos + 6] == BACKSLASH && s[pos + 7] == 117 {
                                let lo_opt = parse_hex4(s, pos + 8);
                                match lo_opt {
                                    Option::None => {
                                        return Option::None;
                                    },
                                    Option::Some(lo) => {
                                        if 0xDC00 <= lo && lo < 0xE000 {
                                            let scalar: u32 = 0x10000 + (cp - 0xD800) * 0x400 + (lo
                                                - 0xDC00);
                                            proof {
                                                lemma_str_cont_assoc(
                                                    sp_string(s@, pos as int + 12),
                                                    acc@,
                                                    utf8_enc(scalar),
                                                );
                                            }
                                            push_utf8(&mut acc, scalar);
                                            pos += 12;
                                        } else {
                                            return Option::None;
                                        }
                                    },
                                }
                            } else {
                                return Option::None;
                            }
                        } else if 0xDC00 <= cp && cp < 0xE000 {
                            return Option::None;
                        } else {
                            proof {
                                lemma_str_cont_assoc(
                                    sp_string(s@, pos as int + 6),
                                    acc@,
                                    utf8_enc(cp),
                                );
                            }
                            push_utf8(&mut acc, cp);
                            pos += 6;
                        }
                    },
                }
            } else {
                return Option::None;
            }
        } else if b < 32 {
            return Option::None;
        } else {
            proof {
                lemma_str_cont_assoc(sp_string(s@, pos as int + 1), acc@, seq![b]);
            }
            acc.push(b);
            pos += 1;
        }
    }
}

/// Scan the digit run at `i`: its end, its value if it fits `u64`, and an
/// overflow mark otherwise.
fn scan_digits(s: &[u8], i: usize) -> (r: (usize, u64, bool))
    requires
        i <= s@.len(),
    ensures
        r.0 as int == sp_digits(s@, i as int),
        i <= r.0 <= s@.len(),
        !r.2 ==> r.1 as int == dval(s@.subrange(i as int, r.0 as int)),
        r.2 ==> dval(s@.subrange(i as int, r.0 as int)) > u64::MAX as int,
{
    let mut j: usize = i;
    let mut val: u64 = 0;
    let mut over: bool = false;
    proof {
        assert(s@.subrange(i as int, i as int) =~= Seq::<u8>::empty());
    }
    while j < s.len() && 48 <= s[j] && s[j] <= 57
        invariant
            i <= j <= s@.len(),
            sp_digits(s@, i as int) == sp_digits(s@, j as int),
            !over ==> val as int == dval(s@.subrange(i as int, j as int)),
            over ==> dval(s@.subrange(i as int, j as int)) > u64::MAX as int,
        decreases s@.len() - j,
    {
        let d = s[j] - 48;
        let ghost pre = s@.subrange(i as int, j as int);
        proof {
            assert(s@.subrange(i as int, j as int + 1).drop_last() =~= pre);
            assert(s@.subrange(i as int, j as int + 1).last() == s@[j as int]);
            assert(dval(s@.subrange(i as int, j as int + 1)) == dval(pre) * 10 + d);
        }
        if over {
            proof {
                assert(dval(pre) * 10 >= dval(pre) + 9 * dval(pre));
            }
        } else if val <= (u64::MAX - (d as u64)) / 10 {
            proof {
                let m = (u64::MAX - d) as int;
                assert(10 * (m / 10) + m % 10 == m);
                assert(val * 10 <= m);
            }
            val = val * 10 + (d as u64);
        } else {
            proof {
                let m = (u64::MAX - d) as int;
                assert(10 * (m / 10) + m % 10 == m);
                assert(val as int >= m / 10 + 1);
                assert(10 * (val as int) >= 10 * (m / 10) + 10);
                assert(dval(pre) * 10 + d > u64::MAX as int);
            }
            over = true;
        }
        j += 1;
    }
    (j, val, over)
}

/// Scan an optional fraction part at `i`.
fn scan_frac(s: &[u8], i: usize) -> (r: Option<usize>)
    requires
        i <= s@.len(),
    ensures
        match r {
            Option::None => sp_frac(s@, i as int) is None,
            Option::Some(j) => sp_frac(s@, i as int) == Option::Some(j as int) && i <= j <= s@.len(),
        },
{
    if i < s.len() && s[i] == DOT {
        if i + 1 < s.len() && 48 <= s[i + 1] && s[i + 1] <= 57 {
            let (j, _, _) = scan_digits(s, i + 1);
            Option::Some(j)
        } else {
            Option::None
        }
    } else {
        Option::Some(i)
    }
}

/// Scan an optional exponent part at `i`.
fn scan_exp(s: &[u8], i: usize) -> (r: Option<usize>)
    requires
        i <= s@.len(),
    ensures
        match r {
            Option::None => sp_exp(s@, i as int) is None,
            Option::Some(j) => sp_exp(s@, i as int) == Option::Some(j as int) && i <= j <= s@.len(),
        },
{
    if i < s.len() && (s[i] == 101 || s[i] == 69) {
        let j0: usize = if i + 1 < s.len() && (s[i + 1] == PLUS || s[i + 1] == MINUS) {
            i + 2
        } else {
            i + 1
        };
        if j0 < s.len() && 48 <= s[j0] && s[j0] <= 57 {
            let (j, _, _) = scan_digits(s, j0);
            Option::Some(j)
        } else {
            Option::None
        }
    } else {
        Option::Some(i)
    }
}

/// Parse a number token at `i`.
fn parse_number(s: &[u8], i: usize) -> (r: Option<(Scalar, usize)>)
    requires
        i <= s@.len(),
    ensures
        match r {
            Option::None => sp_number(s@, i as int) is None,
            Option::Some((v, j)) => sp_number(s@, i as int) == Option::Some((v@, j as int)) && i < j
                <= s@.len(),
        },
{
    proof {
        lemma_sp_number_bounds(s@, i as int);
    }
    let neg = i < s.len() && s[i] == MINUS;
    let i1: usize = if neg {
        i + 1
    } else {
        i
    };
    if !(i1 < s.len() && 48 <= s[i1] && s[i1] <= 57) {
        return Option::None;
    }
    if s[i1] == 48 && i1 + 1 < s.len() && 48 <= s[i1 + 1] && s[i1 + 1] <= 57 {
        return Option::None;
    }
    let (d_end, val, over) = scan_digits(s, i1);
    let f_end = match scan_frac(s, d_end) {
        Option::None => {
            return Option::None;
        },
        Option::Some(j) => j,
    };
    let x_end = match scan_exp(s, f_end) {
        Option::None => {
            return Option::None;
        },
        Option::Some(j) => j,
    };
    if f_end != d_end || x_end != f_end {
        return Option::Some((Scalar::NonInt, x_end));
    }
    proof {
        lemma_sp_digits_all(s@, i1 as int);
        lemma_dval_nonneg(s@.subrange(i1 as int, d_end as int));
    }
    if neg {
        if !over && val <= 9223372036854775808u64 {
            let n: i64 = if val == 9223372036854775808u64 {
                i64::MIN
            } else {
                -(val as i64)
            };
            Option::Some((Scalar::Int(n), x_end))
        } else {
            Option::Some((Scalar::NonInt, x_end))
        }
    } else {
        if !over {
            if val <= 9223372036854775807u64 {
                Option::Some((Scalar::Int(val as i64), x_end))
            } else {
                Option::Some((Scalar::Big(val), x_end))
            }
        } else {
            Option::Some((Scalar::NonInt, x_end))
        }
    }
}

/// Does the word `w` stand at `i`?
fn match_at(s: &[u8], i: usize, w: &[u8]) -> (r: bool)
    requires
        i <= s@.len(),
    ensures
        r == sp_word(s@, i as int, w@),
{
    if s.len() - i < w.len() {
        return false;
    }
    let n: usize = s.len();
    let mut k: usize = 0;
    while k < w.len()
        invariant
            k <= w@.len(),
            n == s@.len(),
            i + w@.len() <= n,
            forall|t: int| 0 <= t < k ==> s@[i + t] == w@[t],
        decreases w@.len() - k,
    {
        if s[i + k] != w[k] {
            assert(s@.subrange(i as int, i as int + w@.len() as int)[k as int] != w@[k as int]);
            return false;
        }
        k += 1;
    }
    proof {
        assert(s@.subrange(i as int, i as int + w@.len() as int) =~= w@);
    }
    true
}

/// Parse a scalar value at `i`.
fn parse_scalar(s: &[u8], i: usize) -> (r: Option<(Scalar, usize)>)
    requires
        i <= s@.len(),
    ensures
        match r {
            Option::None => sp_scalar(s@, i as int) is None,
            Option::Some((v, j)) => sp_scalar(s@, i as int) == Option::Some((v@, j as int)) && i < j
                <= s@.len(),
        },
{
    proof {
        lemma_sp_scalar_bounds(s@, i as int);
    }
    if i >= s.len() {
        return Option::None;
    }
    let b = s[i];
    if b == QUOTE {
        match parse_string(s, i + 1) {
            Option::None => Option::None,
            Option::Some((c, j)) => Option::Some((Scalar::Str(c), j)),
        }
    } else if b == MINUS || (48 <= b && b <= 57) {
        parse_number(s, i)
    } else {
        let w_true = lit("true");
        let w_false = lit("false");
        let w_null = lit("null");
        if match_at(s, i, w_true.as_slice()) {
            Option::Some((Scalar::Bool(true), i + w_true.len()))
        } else if match_at(s, i, w_false.as_slice()) {
            Option::Some((Scalar::Bool(false), i + w_false.len()))
        } else if match_at(s, i, w_null.as_slice()) {
            Option::Some((Scalar::Null, i + w_null.len()))
        } else {
            Option::None
        }
    }
}

/// Continue a member-list parse: prepend already-parsed members.
pub open spec fn list_cont<T>(r: Option<(Seq<T>, int)>, pre: Seq<T>) -> Option<(Seq<T>, int)> {
    match r {
        Option::None => Option::None,
        Option::Some((ms, j)) => Option::Some((pre + ms, j)),
    }
}

proof fn lemma_list_cont_empty<T>(r: Option<(Seq<T>, int)>)
    ensures
        list_cont(r, Seq::empty()) == r,
{
    match r {
        Option::None => {},
        Option::Some((ms, j)) => {
            assert(Seq::<T>::empty() + ms =~= ms);
        },
    }
}

proof fn lemma_list_cont_assoc<T>(r: Option<(Seq<T>, int)>, pre: Seq<T>, mid: Seq<T>)
    ensures
        list_cont(list_cont(r, mid), pre) == list_cont(r, pre + mid),
{
    match r {
        Option::None => {},
        Option::Some((ms, j)) => {
            assert(pre + (mid + ms) =~= (pre + mid) + ms);
        },
    }
}

/// Consume any JSON value at `i`, keeping only where it ends.
fn parse_skip_value(s: &[u8], i: usize) -> (r: Option<usize>)
    requires
        i <= s@.len(),
    ensures
        match r {
            Option::None => sp_skip_value(s@, i as int) is None,
            Option::Some(j) => sp_skip_value(s@, i as int) == Option::Some(j as int) && i < j
                <= s@.len(),
        },
    decreases s@.len() - i, 0int,
{
    proof {
        lemma_sp_skip_value_bounds(s@, i as int);
    }
    if i >= s.len() {
        return Option::None;
    }
    if s[i] == LBRACE {
        let j = skip_ws(s, i + 1);
        if j < s.len() && s[j] == RBRACE {
            Option::Some(j + 1)
        } else {
            parse_skip_members(s, j)
        }
    } else if s[i] == LBRACK {
        let j = skip_ws(s, i + 1);
        if j < s.len() && s[j] == RBRACK {
            Option::Some(j + 1)
        } else {
            parse_skip_elems(s, j)
        }
    } else {
        match parse_scalar(s, i) {
            Option::None => Option::None,
            Option::Some((v, j)) => Option::Some(j),
        }
    }
}

/// Consume the member list of an object being skipped.
fn parse_skip_members(s: &[u8], i: usize) -> (r: Option<usize>)
    requires
        i <= s@.len(),
    ensures
        match r {
            Option::None => sp_skip_members(s@, i as int) is None,
            Option::Some(j) => sp_skip_members(s@, i as int) == Option::Some(j as int) && i < j
                <= s@.len(),
        },
    decreases s@.len() - i, 0int,
{
    proof {
        lemma_sp_skip_members_bounds(s@, i as int);
    }
    if !(i < s.len() && s[i] == QUOTE) {
        return Option::None;
    }
    let (k, j1) = match parse_string(s, i + 1) {
        Option::None => {
            return Option::None;
        },
        Option::Some(p) => p,
    };
    let j2 = skip_ws(s, j1);
    if !(j2 < s.len() && s[j2] == COLON) {
        return Option::None;
    }
    let j3 = skip_ws(s, j2 + 1);
    let j4 = match parse_skip_value(s, j3) {
        Option::None => {
            return Option::None;
        },
        Option::Some(j) => j,
    };
    let j5 = skip_ws(s, j4);
    if j5 < s.len() && s[j5] == COMMA {
        let j6 = skip_ws(s, j5 + 1);
        parse_skip_members(s, j6)
    } else if j5 < s.len() && s[j5] == RBRACE {
        Option::Some(j5 + 1)
    } else {
        Option::None
    }
}

/// Consume the element list of an array being skipped.
fn parse_skip_elems(s: &[u8], i: usize) -> (r: Option<usize>)
    requires
        i <= s@.len(),
    ensures
        match r {
            Option::None => sp_skip_elems(s@, i as int) is None,
            Option::Some(j) => sp_skip_elems(s@, i as int) == Option::Some(j as int) && i < j
                <= s@.len(),
        },
    decreases s@.len() - i, 1int,
{
    proof {
        lemma_sp_skip_elems_bounds(s@, i as int);
    }
    let j = match parse_skip_value(s, i) {
        Option::None => {
            return Option::None;
        },
        Option::Some(j) => j,
    };
    let j2 = skip_ws(s, j);
    if j2 < s.len() && s[j2] == COMMA {
        let j3 = skip_ws(s, j2 + 1);
        parse_skip_elems(s, j3)
    } else if j2 < s.len() && s[j2] == RBRACK {
        Option::Some(j2 + 1)
    } else {
        Option::None
    }
}

/// Parse a value inside the payload object: a scalar, or an opaque
/// composite for an object or array.
fn parse_inner_value(s: &[u8], i: usize) -> (r: Option<(Scalar, usize)>)
    requires
        i <= s@.len(),
    ensures
        match r {
            Option::None => sp_inner_value(s@, i as int) is None,
            Option::Some((v, j)) => sp_inner_value(s@, i as int) == Option::Some((v@, j as int))
                && i < j <= s@.len(),
        },
{
    if i < s.len() && (s[i] == LBRACE || s[i] == LBRACK) {
        match parse_skip_value(s, i) {
            Option::None => Option::None,
            Option::Some(j) => Option::Some((Scalar::Composite, j)),
        }
    } else {
        parse_scalar(s, i)
    }
}

/// Parse the member list of a payload object, starting at the first key's
/// opening quote.
fn parse_members(s: &[u8], i: usize) -> (r: Option<(Vec<Member>, usize)>)
    requires
        i <= s@.len(),
    ensures
        match r {
            Option::None => sp_members(s@, i as int) is None,
            Option::Some((ms, j)) => sp_members(s@, i as int) == Option::Some(
                (members_view(ms@), j as int),
            ) && i < j <= s@.len(),
        },
{
    proof {
        lemma_sp_members_bounds(s@, i as int);
    }
    let ghost i0 = i as int;
    let mut pos: usize = i;
    let mut acc: Vec<Member> = Vec::new();
    proof {
        lemma_list_cont_empty(sp_members(s@, i0));
        assert(members_view(acc@) =~= Seq::<(Seq<u8>, ScalarV)>::empty());
    }
    loop
        invariant
            i <= pos <= s@.len(),
            i0 == i as int,
            sp_members(s@, i0) == list_cont(sp_members(s@, pos as int), members_view(acc@)),
        decreases s@.len() - pos,
    {
        if !(pos < s.len() && s[pos] == QUOTE) {
            return Option::None;
        }
        let (k, j1) = match parse_string(s, pos + 1) {
            Option::None => {
                return Option::None;
            },
            Option::Some(p) => p,
        };
        let j2 = skip_ws(s, j1);
        if !(j2 < s.len() && s[j2] == COLON) {
            return Option::None;
        }
        let j3 = skip_ws(s, j2 + 1);
        let (v, j4) = match parse_inner_value(s, j3) {
            Option::None => {
                return Option::None;
            },
            Option::Some(p) => p,
        };
        let j5 = skip_ws(s, j4);
        let ghost kv = (k@, v@);
        let ghost acc_old = members_view(acc@);
        if j5 < s.len() && s[j5] == COMMA {
            let j6 = skip_ws(s, j5 + 1);
            proof {
                assert(sp_members(s@, pos as int) == list_cont(
                    sp_members(s@, j6 as int),
                    seq![kv],
                ));
                lemma_list_cont_assoc(sp_members(s@, j6 as int), acc_old, seq![kv]);
            }
            acc.push(Member { key: k, val: v });
            proof {
                assert(members_view(acc@) =~= acc_old + seq![kv]);
            }
            pos = j6;
        } else if j5 < s.len() && s[j5] == RBRACE {
            proof {
                assert(sp_members(s@, pos as int) == Option::Some((seq![kv], j5 as int + 1)));
            }
            acc.push(Member { key: k, val: v });
            proof {
                assert(members_view(acc@) =~= acc_old + seq![kv]);
            }
            return Option::Some((acc, j5 + 1));
        } else {
            return Option::None;
        }
    }
}

/// A top-level member's value as parsed.
pub enum TopVal {
    Sc(Scalar),
    Ob(Vec<Member>),
}

impl View for TopVal {
    type V = TopV;

    open spec fn view(&self) -> TopV {
        match self {
            TopVal::Sc(v) => TopV::Sc(v@),
            TopVal::Ob(ms) => TopV::Ob(members_view(ms@)),
        }
    }
}

/// The view of a top-level member list.
pub open spec fn top_view(ms: Seq<(Vec<u8>, TopVal)>) -> Seq<(Seq<u8>, TopV)> {
    ms.map_values(|p: (Vec<u8>, TopVal)| (p.0@, p.1@))
}

/// Parse a top-level member's value at `i`.
fn parse_top_value(s: &[u8], i: usize) -> (r: Option<(TopVal, usize)>)
    requires
        i <= s@.len(),
    ensures
        match r {
            Option::None => sp_top_value(s@, i as int) is None,
            Option::Some((v, j)) => sp_top_value(s@, i as int) == Option::Some((v@, j as int)) && i
                < j <= s@.len(),
        },
{
    proof {
        lemma_sp_top_value_bounds(s@, i as int);
    }
    if i >= s.len() {
        return Option::None;
    }
    if s[i] == LBRACE {
        let j = skip_ws(s, i + 1);
        if j < s.len() && s[j] == RBRACE {
            let empty_members: Vec<Member> = Vec::new();
            proof {
                assert(members_view(empty_members@) =~= Seq::<(Seq<u8>, ScalarV)>::empty());
            }
            Option::Some((TopVal::Ob(empty_members), j + 1))
        } else {
            match parse_members(s, j) {
                Option::None => Option::None,
                Option::Some((ms, j2)) => Option::Some((TopVal::Ob(ms), j2)),
            }
        }
    } else if s[i] == LBRACK {
        match parse_skip_value(s, i) {
            Option::None => Option::None,
            Option::Some(j) => Option::Some((TopVal::Sc(Scalar::Composite), j)),
        }
    } else {
        match parse_scalar(s, i) {
            Option::None => Option::None,
            Option::Some((v, j)) => Option::Some((TopVal::Sc(v), j)),
        }
    }
}

/// Parse the top-level member list, starting at the first key's opening
/// quote.
fn parse_top_members(s: &[u8], i: usize) -> (r: Option<(Vec<(Vec<u8>, TopVal)>, usize)>)
    requires
        i <= s@.len(),
    ensures
        match r {
            Option::None => sp_top_members(s@, i as int) is None,
            Option::Some((ms, j)) => sp_top_members(s@, i as int) == Option::Some(
                (top_view(ms@), j as int),
            ) && i < j <= s@.len(),
        },
{
    proof {
        lemma_sp_top_members_bounds(s@, i as int);
    }
    let ghost i0 = i as int;
    let mut pos: usize = i;
    let mut acc: Vec<(Vec<u8>, TopVal)> = Vec::new();
    proof {
        lemma_list_cont_empty(sp_top_members(s@, i0));
        assert(top_view(acc@) =~= Seq::<(Seq<u8>, TopV)>::empty());
    }
    loop
        invariant
            i <= pos <= s@.len(),
            i0 == i as int,
            sp_top_members(s@, i0) == list_cont(sp_top_members(s@, pos as int), top_view(acc@)),
        decreases s@.len() - pos,
    {
        if !(pos < s.len() && s[pos] == QUOTE) {
            return Option::None;
        }
        let (k, j1) = match parse_string(s, pos + 1) {
            Option::None => {
                return Option::None;
            },
            Option::Some(p) => p,
        };
        let j2 = skip_ws(s, j1);
        if !(j2 < s.len() && s[j2] == COLON) {
            return Option::None;
        }
        let j3 = skip_ws(s, j2 + 1);
        let (v, j4) = match parse_top_value(s, j3) {
            Option::None => {
                return Option::None;
            },
            Option::Some(p) => p,
        };
        let j5 = skip_ws(s, j4);
        let ghost kv = (k@, v@);
        let ghost acc_old = top_view(acc@);
        if j5 < s.len() && s[j5] == COMMA {
            let j6 = skip_ws(s, j5 + 1);
            proof {
                assert(sp_top_members(s@, pos as int) == list_cont(
                    sp_top_members(s@, j6 as int),
                    seq![kv],
                ));
                lemma_list_cont_assoc(sp_top_members(s@, j6 as int), acc_old, seq![kv]);
            }
            acc.push((k, v));
            proof {
                assert(top_view(acc@) =~= acc_old + seq![kv]);
            }
            pos = j6;
        } else if j5 < s.len() && s[j5] == RBRACE {
            proof {
                assert(sp_top_members(s@, pos as int) == Option::Some((seq![kv], j5 as int + 1)));
            }
            acc.push((k, v));
            proof {
                assert(top_view(acc@) =~= acc_old + seq![kv]);
            }
            return Option::Some((acc, j5 + 1));
        } else {
            return Option::None;
        }
    }
}

pub proof fn lemma_sp_top_members_bounds(s: Seq<u8>, i: int)
    ensures
        match sp_top_members(s, i) {
            Option::None => true,
            Option::Some((ms, j)) => i < j <= s.len(),
        },
    decreases s.len() - i,
{
    if 0 <= i < s.len() && s[i] == QUOTE {
        lemma_sp_string_bounds(s, i + 1);
        match sp_string(s, i + 1) {
            Option::None => {},
            Option::Some((k, j1)) => {
                lemma_sp_ws_bounds(s, j1);
                let j2 = sp_ws(s, j1);
                if j2 < s.len() && s[j2] == COLON {
                    lemma_sp_ws_bounds(s, j2 + 1);
                    let j3 = sp_ws(s, j2 + 1);
                    lemma_sp_top_value_bounds(s, j3);
                    match sp_top_value(s, j3) {
                        Option::None => {},
                        Option::Some((v, j4)) => {
                            lemma_sp_ws_bounds(s, j4);
                            let j5 = sp_ws(s, j4);
                            if j5 < s.len() && s[j5] == COMMA {
                                lemma_sp_ws_bounds(s, j5 + 1);
                                let j6 = sp_ws(s, j5 + 1);
                                lemma_sp_top_members_bounds(s, j6);
                            }
                        },
                    }
                }
            },
        }
    }
}

/// How often key `k` occurs among the parsed top-level members.
fn count_members(ms: &Vec<(Vec<u8>, TopVal)>, k: &[u8]) -> (n: usize)
    ensures
        n as int == count_key(top_view(ms@), k@),
{
    let mut n: usize = 0;
    let mut t: usize = 0;
    proof {
        assert(top_view(ms@).subrange(0, ms@.len() as int) =~= top_view(ms@));
    }
    while t < ms.len()
        invariant
            t <= ms@.len(),
            n <= t,
            count_key(top_view(ms@), k@) == n + count_key(
                top_view(ms@).subrange(t as int, ms@.len() as int),
                k@,
            ),
        decreases ms@.len() - t,
    {
        let ghost suffix = top_view(ms@).subrange(t as int, ms@.len() as int);
        proof {
            assert(suffix[0] == top_view(ms@)[t as int]);
            assert(suffix.drop_first() =~= top_view(ms@).subrange(t as int + 1, ms@.len() as int));
        }
        if crate::bytestr::bytes_eq(ms[t].0.as_slice(), k) {
            n += 1;
        }
        t += 1;
    }
    proof {
        assert(top_view(ms@).subrange(ms@.len() as int, ms@.len() as int) =~= Seq::<
            (Seq<u8>, TopV),
        >::empty());
    }
    n
}

/// The first parsed member with key `k`.
fn find_member<'a>(ms: &'a Vec<(Vec<u8>, TopVal)>, k: &[u8]) -> (r: Option<&'a TopVal>)
    ensures
        match r {
            Option::None => find_key(top_view(ms@), k@) is None,
            Option::Some(v) => find_key(top_view(ms@), k@) == Option::Some(v@),
        },
{
    let mut t: usize = 0;
    proof {
        assert(top_view(ms@).subrange(0, ms@.len() as int) =~= top_view(ms@));
    }
    while t < ms.len()
        invariant
            t <= ms@.len(),
            find_key(top_view(ms@), k@) == find_key(
                top_view(ms@).subrange(t as int, ms@.len() as int),
                k@,
            ),
        decreases ms@.len() - t,
    {
        let ghost suffix = top_view(ms@).subrange(t as int, ms@.len() as int);
        proof {
            assert(suffix[0] == top_view(ms@)[t as int]);
            assert(suffix.drop_first() =~= top_view(ms@).subrange(t as int + 1, ms@.len() as int));
        }
        if crate::bytestr::bytes_eq(ms[t].0.as_slice(), k) {
            return Option::Some(&ms[t].1);
        }
        t += 1;
    }
    proof {
        assert(top_view(ms@).subrange(ms@.len() as int, ms@.len() as int) =~= Seq::<
            (Seq<u8>, TopV),
        >::empty());
    }
    Option::None
}

/// An owned copy of a byte string.
fn copy_bytes(v: &Vec<u8>) -> (r: Vec<u8>)
    ensures
        r@ == v@,
{
    vstd::slice::slice_to_vec(v.as_slice())
}

/// An owned copy of a member list.
fn copy_members(ms: &Vec<Member>) -> (r: Vec<Member>)
    ensures
        members_view(r@) == members_view(ms@),
{
    let mut out: Vec<Member> = Vec::new();
    let mut t: usize = 0;
    while t < ms.len()
        invariant
            t <= ms@.len(),
            out@.len() == t,
            forall|u: int| 0 <= u < t ==> out@[u]@ == ms@[u]@,
        decreases ms@.len() - t,
    {
        let val = match &ms[t].val {
            Scalar::Null => Scalar::Null,
            Scalar::Bool(b) => Scalar::Bool(*b),
            Scalar::Int(n) => Scalar::Int(*n),
            Scalar::Big(n) => Scalar::Big(*n),
            Scalar::NonInt => Scalar::NonInt,
            Scalar::Str(sv) => Scalar::Str(copy_bytes(sv)),
            Scalar::Composite => Scalar::Composite,
        };
        out.push(Member { key: copy_bytes(&ms[t].key), val });
        t += 1;
    }
    proof {
        assert(members_view(out@) =~= members_view(ms@));
    }
    out
}

/// The command a whole frame denotes: one top-level object covering the
/// frame up to trailing whitespace.
pub open spec fn sp_frame(s: Seq<u8>) -> Option<CommandV> {
    let i0 = sp_ws(s, 0);
    if !(i0 < s.len() && s[i0] == LBRACE) {
        Option::None
    } else {
        let i1 = sp_ws(s, i0 + 1);
        let obj = if i1 < s.len() && s[i1] == RBRACE {
            Option::Some((Seq::<(Seq<u8>, TopV)>::empty(), i1 + 1))
        } else {
            sp_top_members(s, i1)
        };
        match obj {
            Option::None => Option::None,
            Option::Some((ms, j)) => {
                if sp_ws(s, j) == s.len() {
                    sp_extract(ms)
                } else {
                    Option::None
                }
            },
        }
    }
}

/// A hex digit the escaper writes is read back as its value.
proof fn lemma_hex_digit_inverts(x: u8)
    requires
        x < 16,
    ensures
        hex_val(crate::wire::hex_digit(x)) == Option::Some(x),
{
}

/// Inside `full`, the escaping of `s` followed by a closing quote reads
/// back as exactly `s`.
#[verifier::rlimit(60)]
proof fn lemma_esc_parses_at(full: Seq<u8>, i: int, s: Seq<u8>)
    requires
        0 <= i,
        full.len() >= i + crate::wire::esc(s).len() + 1,
        full.subrange(i, i + crate::wire::esc(s).len()) == crate::wire::esc(s),
        full[i + crate::wire::esc(s).len()] == QUOTE,
    ensures
        sp_string(full, i) == Option::Some((s, i + crate::wire::esc(s).len() + 1)),
    decreases s.len(),
{
    let e = crate::wire::esc(s);
    if s.len() == 0 {
        assert(e =~= Seq::<u8>::empty());
        assert(full[i] == QUOTE);
    } else {
        let b = s[0];
        let eb = crate::wire::esc_byte(b);
        let rest = s.drop_first();
        let er = crate::wire::esc(rest);
        assert(e == eb + er);
        let j = i + eb.len();
        assert forall|k: int| 0 <= k < eb.len() implies full[i + k] == eb[k] by {
            assert(full.subrange(i, i + e.len())[k] == full[i + k]);
            assert((eb + er)[k] == eb[k]);
        }
        assert(full.subrange(j, j + er.len()) =~= er) by {
            assert forall|k: int| 0 <= k < er.len() implies full.subrange(j, j + er.len())[k]
                == er[k] by {
                assert(full.subrange(i, i + e.len())[eb.len() + k] == full[j + k]);
                assert((eb + er)[eb.len() + k] == er[k]);
            }
        }
        lemma_esc_parses_at(full, j, rest);
        if b == QUOTE || b == BACKSLASH {
            assert(full[i] == BACKSLASH && full[i + 1] == b);
            assert(seq![b] + rest =~= s);
        } else if b == 8 {
            assert(full[i] == BACKSLASH && full[i + 1] == 98);
            assert(seq![b] + rest =~= s);
        } else if b == 9 {
            assert(full[i] == BACKSLASH && full[i + 1] == 116);
            assert(seq![b] + rest =~= s);
        } else if b == 10 {
            assert(full[i] == BACKSLASH && full[i + 1] == 110);
            assert(seq![b] + rest =~= s);
        } else if b == 12 {
            assert(full[i] == BACKSLASH && full[i + 1] == 102);
            assert(seq![b] + rest =~= s);
        } else if b == 13 {
            assert(full[i] == BACKSLASH && full[i + 1] == 114);
            assert(seq![b] + rest =~= s);
        } else if b < 32 {
            assert(full[i] == BACKSLASH && full[i + 1] == 117);
            assert(full[i + 2] == 48 && full[i + 3] == 48);
            assert(full[i + 4] == crate::wire::hex_digit(b / 16));
            assert(full[i + 5] == crate::wire::hex_digit(b % 16));
            lemma_hex_digit_inverts(b / 16);
            lemma_hex_digit_inverts(b % 16);
            assert(sp_hex4(full, i + 2) == Option::Some(
                (16 * ((b / 16) as u32) + ((b % 16) as u32)) as u32,
            ));
            assert(16 * ((b / 16) as u32) + ((b % 16) as u32) == b as u32);
            assert(utf8_enc(b as u32) =~= seq![b]);
            assert(seq![b] + rest =~= s);
        } else {
            assert(eb =~= seq![b]);
            assert(full[i + 0] == eb[0]);
            assert(full[i] == b);
            assert(seq![b] + rest =~= s);
        }
    }
}

/// Law: a byte string escaped for the wire, closed with a quote and
/// followed by anything, is read back by the grammar's string rule as
/// exactly the original bytes — what the serializer writes, the parser
/// returns unchanged.
pub proof fn lemma_escape_round_trip(s: Seq<u8>, tail: Seq<u8>)
    ensures
        ({
            let full = crate::wire::esc(s) + seq![QUOTE] + tail;
            sp_string(full, 0) == Option::Some((s, crate::wire::esc(s).len() as int + 1))
        }),
{
    let e = crate::wire::esc(s);
    let full = e + seq![QUOTE] + tail;
    assert(full.subrange(0, e.len() as int) =~= e);
    assert(full[e.len() as int] == QUOTE);
    lemma_esc_parses_at(full, 0, s);
}

/// Parse one frame into a command, or nothing if the frame is malformed.
/// The result is exactly what the grammar denotes: `sp_frame`.
pub fn parse_frame(s: &[u8]) -> (r: Option<Command>)
    ensures
        match r {
            Option::None => sp_frame(s@) is None,
            Option::Some(c) => sp_frame(s@) == Option::Some(c@),
        },
{
    let i0 = skip_ws(s, 0);
    if !(i0 < s.len() && s[i0] == LBRACE) {
        return Option::None;
    }
    let i1 = skip_ws(s, i0 + 1);
    let (ms, j): (Vec<(Vec<u8>, TopVal)>, usize) = if i1 < s.len() && s[i1] == RBRACE {
        let empty_list: Vec<(Vec<u8>, TopVal)> = Vec::new();
        proof {
            assert(top_view(empty_list@) =~= Seq::<(Seq<u8>, TopV)>::empty());
        }
        (empty_list, i1 + 1)
    } else {
        match parse_top_members(s, i1) {
            Option::None => {
                return Option::None;
            },
            Option::Some(p) => p,
        }
    };
    let j2 = skip_ws(s, j);
    if j2 != s.len() {
        return Option::None;
    }
    let kid = lit("id");
    let kcmd = lit("command");
    let kdata = lit("data");
    if count_members(&ms, kid.as_slice()) > 1 || count_members(&ms, kcmd.as_slice()) > 1
        || count_members(&ms, kdata.as_slice()) > 1 {
        return Option::None;
    }
    let id: Option<Vec<u8>> = match find_member(&ms, kid.as_slice()) {
        Option::None => Option::None,
        Option::Some(TopVal::Sc(Scalar::Null)) => Option::None,
        Option::Some(TopVal::Sc(Scalar::Str(sv))) => Option::Some(copy_bytes(sv)),
        _ => {
            return Option::None;
        },
    };
    let name: Vec<u8> = match find_member(&ms, kcmd.as_slice()) {
        Option::Some(TopVal::Sc(Scalar::Str(n))) => copy_bytes(n),
        _ => {
            return Option::None;
        },
    };
    let data: Option<Payload> = match find_member(&ms, kdata.as_slice()) {
        Option::None => Option::None,
        Option::Some(TopVal::Sc(Scalar::Null)) => Option::None,
        Option::Some(TopVal::Ob(mm)) => Option::Some(Payload::Object(copy_members(mm))),
        Option::Some(TopVal::Sc(_)) => Option::Some(Payload::NonObject),
    };
    let c = Command { id, name, data };
    proof {
        assert(sp_frame(s@) == sp_extract(top_view(ms@)));
        assert(sp_extract(top_view(ms@)) == Option::Some(c@));
    }
    Option::Some(c)
}

} // verus!
