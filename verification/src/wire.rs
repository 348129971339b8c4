//! The outbound wire format: the uniform response envelope
//! `{"id":…,"status":…,"message":…,"data":null}` and its JSON rendering,
//! including string escaping.  The inbound side (frame parsing) is in
//! `parse`; the two share the escaping conventions defined here.

use vstd::prelude::*;
use vstd::utf8::encode_utf8;
use crate::bytestr::{extend, lit};

verus! {

/// The quote byte `"`.
pub const QUOTE: u8 = 34;

/// The backslash byte `\`.
pub const BACKSLASH: u8 = 92;

/// Outcome class of a response: mirrors the protocol's
/// `"success" | "error" | "info"`.
#[derive(Clone, Copy, PartialEq, Eq, Structural, Debug)]
pub enum Status {
    Success,
    Error,
    Info,
}

/// Result of one executor operation or control call: a status and a
/// human-readable message, both destined for a response envelope.
#[derive(Debug, PartialEq)]
pub struct Reply {
    pub status: Status,
    pub message: Vec<u8>,
}

/// One outbound response envelope.  `data` is always null on the wire, so it
/// carries no field here.
#[derive(Debug, PartialEq)]
pub struct Response {
    pub id: Option<Vec<u8>>,
    pub status: Status,
    pub message: Vec<u8>,
}

/// The view of an optional byte string.
pub open spec fn opt_bytes(o: Option<Vec<u8>>) -> Option<Seq<u8>> {
    match o {
        Option::None => Option::None,
        Option::Some(v) => Option::Some(v@),
    }
}

/// The status word as it appears on the wire.
pub open spec fn status_bytes(s: Status) -> Seq<u8> {
    match s {
        Status::Success => encode_utf8("success"@),
        Status::Error => encode_utf8("error"@),
        Status::Info => encode_utf8("info"@),
    }
}

/// Lower-case hex digit of a value below 16.
pub open spec fn hex_digit(n: u8) -> u8 {
    if n < 10 {
        (48 + n) as u8
    } else {
        (87 + n) as u8
    }
}

/// The JSON escaping of one byte of string content: quote and backslash get
/// a backslash escape, the control bytes for backspace, tab, line feed, form
/// feed and carriage return get their short escapes, every other control
/// byte becomes `\u00XY`, and all remaining bytes stand for themselves.
pub open spec fn esc_byte(b: u8) -> Seq<u8> {
    if b == QUOTE {
        seq![BACKSLASH, QUOTE]
    } else if b == BACKSLASH {
        seq![BACKSLASH, BACKSLASH]
    } else if b == 8 {
        seq![BACKSLASH, 98]  // \b
    } else if b == 9 {
        seq![BACKSLASH, 116]  // \t
    } else if b == 10 {
        seq![BACKSLASH, 110]  // \n
    } else if b == 12 {
        seq![BACKSLASH, 102]  // \f
    } else if b == 13 {
        seq![BACKSLASH, 114]  // \r
    } else if b < 32 {
        seq![BACKSLASH, 117, 48, 48, hex_digit(b / 16), hex_digit(b % 16)]  // \u00XY
    } else {
        seq![b]
    }
}

/// The JSON escaping of a whole byte string.
pub open spec fn esc(s: Seq<u8>) -> Seq<u8>
    decreases s.len(),
{
    if s.len() == 0 {
        Seq::empty()
    } else {
        esc_byte(s[0]) + esc(s.drop_first())
    }
}

/// Escaping distributes over appending one byte.
pub proof fn lemma_esc_push(s: Seq<u8>, b: u8)
    ensures
        esc(s.push(b)) == esc(s) + esc_byte(b),
    decreases s.len(),
{
    if s.len() == 0 {
        reveal_with_fuel(esc, 3);
        assert(s.push(b)[0] == b);
        assert(s.push(b).drop_first() =~= Seq::<u8>::empty());
        assert(esc(s.push(b)) =~= esc(s) + esc_byte(b));
    } else {
        assert(s.push(b)[0] == s[0]);
        assert(s.push(b).drop_first() =~= s.drop_first().push(b));
        lemma_esc_push(s.drop_first(), b);
        assert(esc(s.push(b)) == esc_byte(s[0]) + esc(s.drop_first().push(b)));
        assert(esc(s.push(b)) =~= esc(s) + esc_byte(b));
    }
}

/// Append the escaping of `s` to `out`.
pub fn push_escaped(out: &mut Vec<u8>, s: &[u8])
    ensures
        final(out)@ == old(out)@ + esc(s@),
{
    let mut i: usize = 0;
    while i < s.len()
        invariant
            i <= s@.len(),
            out@ == old(out)@ + esc(s@.subrange(0, i as int)),
        decreases s@.len() - i,
    {
        let b = s[i];
        let ghost before = out@;
        if b == QUOTE {
            out.push(BACKSLASH);
            out.push(QUOTE);
        } else if b == BACKSLASH {
            out.push(BACKSLASH);
            out.push(BACKSLASH);
        } else if b == 8 {
            out.push(BACKSLASH);
            out.push(98);
        } else if b == 9 {
            out.push(BACKSLASH);
            out.push(116);
        } else if b == 10 {
            out.push(BACKSLASH);
            out.push(110);
        } else if b == 12 {
            out.push(BACKSLASH);
            out.push(102);
        } else if b == 13 {
            out.push(BACKSLASH);
            out.push(114);
        } else if b < 32 {
            out.push(BACKSLASH);
            out.push(117);
            out.push(48);
            out.push(48);
            let hi = b / 16;
            let lo = b % 16;
            out.push(if hi < 10 { 48 + hi } else { 87 + hi });
            out.push(if lo < 10 { 48 + lo } else { 87 + lo });
        } else {
            out.push(b);
        }
        proof {
            assert(out@ =~= before + esc_byte(b));
            lemma_esc_push(s@.subrange(0, i as int), b);
            assert(s@.subrange(0, i as int).push(b) =~= s@.subrange(0, i as int + 1));
            assert(out@ =~= old(out)@ + esc(s@.subrange(0, i as int + 1)));
        }
        i += 1;
    }
    proof {
        assert(s@.subrange(0, s@.len() as int) =~= s@);
    }
}

/// The status word as characters.
pub open spec fn status_word(s: Status) -> Seq<char> {
    match s {
        Status::Success => "success"@,
        Status::Error => "error"@,
        Status::Info => "info"@,
    }
}

/// The characters lossy UTF-8 decoding yields for a byte string: a
/// function of the bytes alone, with invalid sequences replaced.
pub uninterp spec fn lossy_of(b: Seq<u8>) -> Seq<char>;

/// Relies on `String::from_utf8_lossy`: the result depends on the bytes
/// alone; a valid UTF-8 byte string decodes to exactly its characters, and
/// the call never fails.
#[verifier::external_body]
fn bytes_to_string(b: &Vec<u8>) -> (r: String)
    ensures
        r@ == lossy_of(b@),
        vstd::utf8::valid_utf8(b@) ==> r@ == vstd::utf8::decode_utf8(b@),
{
    String::from_utf8_lossy(b.as_slice()).into_owned()
}

impl Reply {
    /// The shell-facing uniform result: the status word and the message as
    /// strings.
    pub fn to_command_response(&self) -> (c: crate::CommandResponse)
        ensures
            c.status@ == status_word(self.status),
            c.message@ == lossy_of(self.message@),
            vstd::utf8::valid_utf8(self.message@) ==> c.message@ == vstd::utf8::decode_utf8(
                self.message@,
            ),
    {
        let status_str: String = match self.status {
            Status::Success => "success".to_owned(),
            Status::Error => "error".to_owned(),
            Status::Info => "info".to_owned(),
        };
        crate::CommandResponse { status: status_str, message: bytes_to_string(&self.message) }
    }
}

/// The full rendering of a response envelope: the fields in declaration
/// order, `id` as a JSON string or null, `status` and `message` as JSON
/// strings, `data` always null.
pub open spec fn rendered_response(id: Option<Seq<u8>>, st: Status, msg: Seq<u8>) -> Seq<u8> {
    encode_utf8("{\"id\":"@) + (match id {
        Option::None => encode_utf8("null"@),
        Option::Some(i) => seq![QUOTE] + esc(i) + seq![QUOTE],
    }) + encode_utf8(",\"status\":\""@) + status_bytes(st) + encode_utf8("\",\"message\":\""@)
        + esc(msg) + encode_utf8("\",\"data\":null}"@)
}

/// Serialize a response to its wire bytes.
pub fn render_response(r: &Response) -> (out: Vec<u8>)
    ensures
        out@ == rendered_response(opt_bytes(r.id), r.status, r.message@),
{
    let mut out: Vec<u8> = Vec::new();
    let head = lit("{\"id\":");
    extend(&mut out, head.as_slice());
    match &r.id {
        Option::None => {
            let n = lit("null");
            extend(&mut out, n.as_slice());
        },
        Option::Some(i) => {
            out.push(QUOTE);
            push_escaped(&mut out, i.as_slice());
            out.push(QUOTE);
        },
    }
    let st = lit(",\"status\":\"");
    extend(&mut out, st.as_slice());
    match r.status {
        Status::Success => {
            let w = lit("success");
            extend(&mut out, w.as_slice());
        },
        Status::Error => {
            let w = lit("error");
            extend(&mut out, w.as_slice());
        },
        Status::Info => {
            let w = lit("info");
            extend(&mut out, w.as_slice());
        },
    }
    let mid = lit("\",\"message\":\"");
    extend(&mut out, mid.as_slice());
    push_escaped(&mut out, r.message.as_slice());
    let tail = lit("\",\"data\":null}");
    extend(&mut out, tail.as_slice());
    proof {
        assert(out@ =~= rendered_response(opt_bytes(r.id), r.status, r.message@));
    }
    out
}

} // verus!
