//! The connection QR code: a URL rendered as a QR character grid, laid out
//! as an SVG image and wrapped into a base64 data URL.  The QR rendering
//! and the base64 encoding are outside calls whose results are functions of
//! the input alone; the SVG assembly between them is verified.

use vstd::prelude::*;
use vstd::utf8::encode_utf8;
use crate::bytestr::{extend, format_u64, lit};

verus! {

/// The character grid qrcode's renderer produces for this input, with no
/// quiet zone and two characters per module: dark modules as `█`, light
/// ones as spaces, rows separated by line feeds.
pub uninterp spec fn qr_grid_of(url: Seq<u8>) -> Seq<char>;

/// The standard padded base64 encoding of a byte string.
pub uninterp spec fn b64_of(data: Seq<u8>) -> Seq<u8>;

/// Whether a byte string fits some QR code version: the one condition on
/// which rendering succeeds, itself a function of the input alone.
pub uninterp spec fn qr_renderable(url: Seq<u8>) -> bool;

/// Relies on qrcode's `QrCode::new` and its character renderer, configured
/// with no quiet zone and 2-by-1 module dimensions: the whole pipeline is a
/// deterministic function of the input bytes, and it fails exactly when
/// the data fits no QR code version.
#[verifier::external_body]
fn qr_render(url: &Vec<u8>) -> (r: Result<Vec<char>, Vec<u8>>)
    ensures
        r is Ok <==> qr_renderable(url@),
        r matches Result::Ok(g) ==> g@ == qr_grid_of(url@),
{
    match qrcode::QrCode::new(url.as_slice()) {
        Ok(code) => {
            let image: String =
                code.render::<char>().quiet_zone(false).module_dimensions(2, 1).build();
            Ok(image.chars().collect())
        },
        Err(e) => Err(format!("{:?}", e).into_bytes()),
    }
}

/// Relies on base64's `STANDARD` engine: the encoding is a function of the
/// input alone, and with padding its length is four bytes for every started
/// three.
#[verifier::external_body]
fn b64_encode(data: &Vec<u8>) -> (r: Vec<u8>)
    ensures
        r@ == b64_of(data@),
        r@.len() == 4 * ((data@.len() + 2) / 3),
{
    base64::Engine::encode(&base64::engine::general_purpose::STANDARD, data.as_slice())
        .into_bytes()
}

/// The number of line feeds in the grid.
pub open spec fn nl_count(g: Seq<char>) -> int
    decreases g.len(),
{
    if g.len() == 0 {
        0
    } else {
        (if g[0] == '\n' {
            1int
        } else {
            0int
        }) + nl_count(g.drop_first())
    }
}

/// The number of lines, as line-based iteration counts them: a trailing
/// line feed opens no further line, and an empty grid has none.
pub open spec fn line_count(g: Seq<char>) -> int {
    if g.len() == 0 {
        0
    } else if g.last() == '\n' {
        nl_count(g)
    } else {
        nl_count(g) + 1
    }
}

/// The UTF-8 width of one character.
pub open spec fn utf8_width(c: char) -> int {
    if (c as u32) < 0x80 {
        1
    } else if (c as u32) < 0x800 {
        2
    } else if (c as u32) < 0x10000 {
        3
    } else {
        4
    }
}

/// Line feeds are at most one per character, and one fewer when the grid
/// does not end in one.
pub proof fn lemma_nl_count_bound(g: Seq<char>)
    ensures
        0 <= nl_count(g) <= g.len(),
        g.len() > 0 && g.last() != '\n' ==> nl_count(g) < g.len(),
    decreases g.len(),
{
    if g.len() > 0 {
        lemma_nl_count_bound(g.drop_first());
        if g.len() > 1 {
            assert(g.drop_first().last() == g.last());
        }
    }
}

/// The byte length of the first line.
pub open spec fn first_line_bytes(g: Seq<char>) -> int
    decreases g.len(),
{
    if g.len() == 0 {
        0
    } else if g[0] == '\n' {
        0
    } else {
        utf8_width(g[0]) + first_line_bytes(g.drop_first())
    }
}

/// The decimal digits of a wide count.
pub open spec fn dec_u128(n: u128) -> Seq<u8>
    decreases n,
{
    if n < 10 {
        seq![(48 + n) as u8]
    } else {
        dec_u128(n / 10).push((48 + n % 10) as u8)
    }
}

/// Render a wide count in decimal.
fn format_u128(n: u128) -> (r: Vec<u8>)
    ensures
        r@ == dec_u128(n),
    decreases n,
{
    if n < 10 {
        let mut out: Vec<u8> = Vec::new();
        out.push(48 + (n as u8));
        proof {
            assert(out@ =~= dec_u128(n));
        }
        out
    } else {
        let mut out = format_u128(n / 10);
        out.push(48 + ((n % 10) as u8));
        out
    }
}

/// One dark module's rectangle element.
pub open spec fn rect_bytes(x: int, y: int) -> Seq<u8> {
    encode_utf8("<rect x=\""@) + crate::bytestr::dec_u64(x as u64) + encode_utf8("\" y=\""@)
        + crate::bytestr::dec_u64(y as u64) + encode_utf8("\" width=\"1\" height=\"1\"/>"@)
}

/// The rectangle elements of the grid from character position `(x, y)` on:
/// a line feed starts the next row, a dark module emits its rectangle, and
/// everything else only advances.
pub open spec fn svg_rects(g: Seq<char>, x: int, y: int) -> Seq<u8>
    decreases g.len(),
{
    if g.len() == 0 {
        Seq::empty()
    } else if g[0] == '\n' {
        svg_rects(g.drop_first(), 0, y + 1)
    } else if g[0] == '█' {
        rect_bytes(x, y) + svg_rects(g.drop_first(), x + 1, y)
    } else {
        svg_rects(g.drop_first(), x + 1, y)
    }
}

/// The whole SVG document for a grid: a fixed 200-by-200 frame whose view
/// box spans the line count and the first line's byte length, a white
/// backdrop, and one black unit rectangle per dark module.
pub open spec fn svg_of(g: Seq<char>) -> Seq<u8> {
    encode_utf8(
        "<svg xmlns=\"http://www.w3.org/2000/svg\" width=\"200\" height=\"200\" viewBox=\"0 0 "@,
    ) + crate::bytestr::dec_u64(line_count(g) as u64) + encode_utf8(" "@) + dec_u128(
        first_line_bytes(g) as u128,
    ) + encode_utf8(
        "\">\n        <rect width=\"100%\" height=\"100%\" fill=\"white\"/>\n        <g fill=\"black\">"@,
    ) + svg_rects(g, 0, 0) + encode_utf8("</g>\n        </svg>"@)
}

/// Build the SVG document for a grid.
pub fn svg_for_grid(g: &[char]) -> (r: Vec<u8>)
    ensures
        r@ == svg_of(g@),
{
    let mut nls: usize = 0;
    let mut t: usize = 0;
    proof {
        assert(g@.subrange(0, g@.len() as int) =~= g@);
    }
    while t < g.len()
        invariant
            t <= g@.len(),
            nls <= t,
            nl_count(g@) == nls + nl_count(g@.subrange(t as int, g@.len() as int)),
        decreases g@.len() - t,
    {
        let ghost suffix = g@.subrange(t as int, g@.len() as int);
        proof {
            assert(suffix[0] == g@[t as int]);
            assert(suffix.drop_first() =~= g@.subrange(t as int + 1, g@.len() as int));
        }
        if g[t] == '\n' {
            nls += 1;
        }
        t += 1;
    }
    proof {
        assert(nl_count(g@.subrange(g@.len() as int, g@.len() as int)) == 0);
    }
    let lines: usize = if g.len() == 0 {
        0
    } else if g[g.len() - 1] == '\n' {
        nls
    } else {
        proof {
            lemma_nl_count_bound(g@);
        }
        nls + 1
    };
    let mut flb: u128 = 0;
    let mut u: usize = 0;
    proof {
        assert(g@.subrange(0, g@.len() as int) =~= g@);
    }
    let mut stopped = false;
    while u < g.len() && !stopped
        invariant
            u <= g@.len(),
            flb <= 4 * u,
            !stopped ==> first_line_bytes(g@) == flb + first_line_bytes(
                g@.subrange(u as int, g@.len() as int),
            ),
            stopped ==> first_line_bytes(g@) == flb,
        decreases g@.len() - u + (if stopped {
            0int
        } else {
            1int
        }),
    {
        let ghost suffix = g@.subrange(u as int, g@.len() as int);
        proof {
            assert(suffix[0] == g@[u as int]);
            assert(suffix.drop_first() =~= g@.subrange(u as int + 1, g@.len() as int));
        }
        let c = g[u];
        if c == '\n' {
            stopped = true;
        } else {
            let w: u128 = if (c as u32) < 0x80 {
                1
            } else if (c as u32) < 0x800 {
                2
            } else if (c as u32) < 0x10000 {
                3
            } else {
                4
            };
            flb += w;
            u += 1;
        }
    }
    proof {
        if !stopped {
            assert(first_line_bytes(g@.subrange(g@.len() as int, g@.len() as int)) == 0);
        }
    }
    let mut out = lit(
        "<svg xmlns=\"http://www.w3.org/2000/svg\" width=\"200\" height=\"200\" viewBox=\"0 0 ",
    );
    let lb = format_u64(lines as u64);
    extend(&mut out, lb.as_slice());
    let sp = lit(" ");
    extend(&mut out, sp.as_slice());
    let fb = format_u128(flb);
    extend(&mut out, fb.as_slice());
    let mid = lit(
        "\">\n        <rect width=\"100%\" height=\"100%\" fill=\"white\"/>\n        <g fill=\"black\">",
    );
    extend(&mut out, mid.as_slice());
    let ghost head = out@;
    let mut x: usize = 0;
    let mut y: usize = 0;
    let mut v: usize = 0;
    proof {
        assert(g@.subrange(0, g@.len() as int) =~= g@);
    }
    while v < g.len()
        invariant
            v <= g@.len(),
            x <= v,
            y <= v,
            head + svg_rects(g@, 0, 0) == out@ + svg_rects(
                g@.subrange(v as int, g@.len() as int),
                x as int,
                y as int,
            ),
        decreases g@.len() - v,
    {
        let ghost suffix = g@.subrange(v as int, g@.len() as int);
        proof {
            assert(suffix[0] == g@[v as int]);
            assert(suffix.drop_first() =~= g@.subrange(v as int + 1, g@.len() as int));
        }
        let c = g[v];
        if c == '\n' {
            x = 0;
            y += 1;
        } else if c == '█' {
            let part1 = lit("<rect x=\"");
            extend(&mut out, part1.as_slice());
            let xs = format_u64(x as u64);
            extend(&mut out, xs.as_slice());
            let part2 = lit("\" y=\"");
            extend(&mut out, part2.as_slice());
            let ys = format_u64(y as u64);
            extend(&mut out, ys.as_slice());
            let part3 = lit("\" width=\"1\" height=\"1\"/>");
            extend(&mut out, part3.as_slice());
            x += 1;
        } else {
            x += 1;
        }
        v += 1;
    }
    proof {
        assert(svg_rects(g@.subrange(g@.len() as int, g@.len() as int), x as int, y as int)
            =~= Seq::<u8>::empty());
    }
    let tail = lit("</g>\n        </svg>");
    extend(&mut out, tail.as_slice());
    proof {
        assert(out@ =~= svg_of(g@));
    }
    out
}

/// Generate the QR data URL for a URL: the SVG of the code's grid, base64
/// encoded behind a data scheme; or an error naming the failure when the
/// data fits no QR code.  It succeeds exactly on renderable inputs.
pub fn generate_qr_code(url: &Vec<u8>) -> (r: Result<Vec<u8>, Vec<u8>>)
    ensures
        r is Ok <==> qr_renderable(url@),
        r matches Result::Ok(v) ==> v@ == encode_utf8("data:image/svg+xml;base64,"@) + b64_of(
            svg_of(qr_grid_of(url@)),
        ),
        r matches Result::Err(e) ==> e@.len() >= encode_utf8("Failed to generate QR code: "@).len()
            && e@.subrange(0, encode_utf8("Failed to generate QR code: "@).len() as int)
            == encode_utf8("Failed to generate QR code: "@),
{
    match qr_render(url) {
        Result::Err(e) => {
            let mut msg = lit("Failed to generate QR code: ");
            let ghost pre = msg@;
            extend(&mut msg, e.as_slice());
            proof {
                assert(msg@.subrange(0, pre.len() as int) =~= pre);
            }
            Result::Err(msg)
        },
        Result::Ok(grid) => {
            let svg = svg_for_grid(grid.as_slice());
            let b64 = b64_encode(&svg);
            let mut out = lit("data:image/svg+xml;base64,");
            extend(&mut out, b64.as_slice());
            Result::Ok(out)
        },
    }
}

} // verus!
