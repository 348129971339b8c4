//! The executor plan: which native operations one action performs, and the
//! message reported when they all succeed.  Each operation wraps exactly
//! one OS-level side effect; the unverified shell performs them in order
//! and reports a string outcome.

use vstd::prelude::*;
use vstd::utf8::encode_utf8;
use crate::bytestr::{concat3, dec_i64, dec_u64, extend, format_i64, format_u64, lit, starts_with};
use crate::dispatch::{Action, ActionV};
use crate::keys::{
    button_of_name, button_of_name_spec, key_of_name, key_of_name_spec, KeyAction, MouseButton,
    NamedKey,
};

verus! {

/// One native side effect.
#[derive(Debug, PartialEq)]
pub enum NativeOp {
    /// Press a named key through the input binding.
    KeyPress(NamedKey),
    /// Release a named key through the input binding.
    KeyRelease(NamedKey),
    /// Tap a character key through the input binding.
    TapChar(u8),
    /// Type UTF-8 text through the input binding.
    TypeText(Vec<u8>),
    /// Move the pointer by a relative offset.
    MoveMouseRel(i64, i64),
    /// Press a mouse button.
    PressButton(MouseButton),
    /// Scroll horizontally.
    ScrollH(i64),
    /// Scroll vertically.
    ScrollV(i64),
    /// Set the output volume through the platform's shell facility.
    SetVolume(u8),
    /// Set the display brightness through the platform's shell facility.
    SetBrightness(u8),
    /// Hand a URL to the system opener.
    OpenUrl(Vec<u8>),
}

/// Spec-level mirror of `NativeOp`.
pub enum NativeOpV {
    KeyPress(NamedKey),
    KeyRelease(NamedKey),
    TapChar(u8),
    TypeText(Seq<u8>),
    MoveMouseRel(i64, i64),
    PressButton(MouseButton),
    ScrollH(i64),
    ScrollV(i64),
    SetVolume(u8),
    SetBrightness(u8),
    OpenUrl(Seq<u8>),
}

impl View for NativeOp {
    type V = NativeOpV;

    open spec fn view(&self) -> NativeOpV {
        match self {
            NativeOp::KeyPress(k) => NativeOpV::KeyPress(*k),
            NativeOp::KeyRelease(k) => NativeOpV::KeyRelease(*k),
            NativeOp::TapChar(c) => NativeOpV::TapChar(*c),
            NativeOp::TypeText(t) => NativeOpV::TypeText(t@),
            NativeOp::MoveMouseRel(x, y) => NativeOpV::MoveMouseRel(*x, *y),
            NativeOp::PressButton(b) => NativeOpV::PressButton(*b),
            NativeOp::ScrollH(d) => NativeOpV::ScrollH(*d),
            NativeOp::ScrollV(d) => NativeOpV::ScrollV(*d),
            NativeOp::SetVolume(v) => NativeOpV::SetVolume(*v),
            NativeOp::SetBrightness(v) => NativeOpV::SetBrightness(*v),
            NativeOp::OpenUrl(u) => NativeOpV::OpenUrl(u@),
        }
    }
}

/// The view of an operation list.
pub open spec fn ops_view(ops: Seq<NativeOp>) -> Seq<NativeOpV> {
    ops.map_values(|o: NativeOp| o@)
}

/// The message for a successful key send: the name quoted back.
pub open spec fn key_sent_msg(n: Seq<u8>) -> Seq<u8> {
    encode_utf8("Key '"@) + n + encode_utf8("' sent successfully"@)
}

/// The message for a pair of deltas: `(dx, dy)` after the given prefix.
pub open spec fn delta_msg(prefix: Seq<u8>, x: i64, y: i64) -> Seq<u8> {
    prefix + encode_utf8("("@) + dec_i64(x) + encode_utf8(", "@) + dec_i64(y) + encode_utf8(")"@)
}

/// Does the URL carry an accepted scheme?
pub open spec fn url_scheme_ok(u: Seq<u8>) -> bool {
    let http = encode_utf8("http://"@);
    let https = encode_utf8("https://"@);
    (u.len() >= http.len() && u.subrange(0, http.len() as int) == http) || (u.len() >= https.len()
        && u.subrange(0, https.len() as int) == https)
}

/// The operations and success message an action plans, or the error that
/// rejects it before any operation runs.
pub open spec fn action_plan(a: ActionV) -> Result<(Seq<NativeOpV>, Seq<u8>), Seq<u8>> {
    match a {
        ActionV::PlayPause => Result::Ok(
            (
                seq![NativeOpV::KeyPress(NamedKey::Space)],
                encode_utf8("Play/pause command sent"@),
            ),
        ),
        ActionV::MediaPrevious => Result::Ok(
            (seq![NativeOpV::TapChar(106)], encode_utf8("Media previous command sent"@)),
        ),
        ActionV::MediaNext => Result::Ok(
            (seq![NativeOpV::TapChar(108)], encode_utf8("Media next command sent"@)),
        ),
        ActionV::MediaStop => Result::Ok(
            (seq![NativeOpV::TapChar(107)], encode_utf8("Media stop command sent"@)),
        ),
        ActionV::VolumeUp => Result::Ok(
            (
                seq![NativeOpV::KeyPress(NamedKey::VolumeUp)],
                encode_utf8("Volume up command sent"@),
            ),
        ),
        ActionV::VolumeDown => Result::Ok(
            (
                seq![NativeOpV::KeyPress(NamedKey::VolumeDown)],
                encode_utf8("Volume down command sent"@),
            ),
        ),
        ActionV::VolumeMute => Result::Ok(
            (
                seq![NativeOpV::KeyPress(NamedKey::VolumeMute)],
                encode_utf8("Volume mute command sent"@),
            ),
        ),
        ActionV::VolumeSet(v) => Result::Ok(
            (
                seq![NativeOpV::SetVolume(v)],
                encode_utf8("Volume set to "@) + dec_u64(v as u64) + encode_utf8("%"@),
            ),
        ),
        ActionV::BrightnessUp => Result::Ok(
            (
                seq![NativeOpV::KeyPress(NamedKey::F2)],
                encode_utf8("Brightness up command sent"@),
            ),
        ),
        ActionV::BrightnessDown => Result::Ok(
            (
                seq![NativeOpV::KeyPress(NamedKey::F1)],
                encode_utf8("Brightness down command sent"@),
            ),
        ),
        ActionV::BrightnessSet(v) => Result::Ok(
            (
                seq![NativeOpV::SetBrightness(v)],
                encode_utf8("Brightness set to "@) + dec_u64(v as u64) + encode_utf8("%"@),
            ),
        ),
        ActionV::SendKey(n) => match key_of_name_spec(n) {
            Option::None => Result::Err(encode_utf8("Unknown key: "@) + n),
            Option::Some(KeyAction::Named(k)) => Result::Ok(
                (seq![NativeOpV::KeyPress(k)], key_sent_msg(n)),
            ),
            Option::Some(KeyAction::Char(c)) => Result::Ok(
                (seq![NativeOpV::TypeText(seq![c])], key_sent_msg(n)),
            ),
        },
        ActionV::TextInput(t) => Result::Ok(
            (
                seq![NativeOpV::TypeText(t)],
                encode_utf8("Text input successful ("@) + dec_u64(t.len() as u64) + encode_utf8(
                    " characters)"@,
                ),
            ),
        ),
        ActionV::MouseMove(x, y) => Result::Ok(
            (
                seq![NativeOpV::MoveMouseRel(x, y)],
                delta_msg(encode_utf8("Mouse moved by "@), x, y),
            ),
        ),
        ActionV::MouseClick(b) => match button_of_name_spec(b) {
            Option::None => Result::Err(encode_utf8("Unsupported mouse button: "@) + b),
            Option::Some(mb) => Result::Ok(
                (
                    seq![NativeOpV::PressButton(mb)],
                    encode_utf8("Mouse "@) + b + encode_utf8(" clicked"@),
                ),
            ),
        },
        ActionV::Scroll(x, y) => Result::Ok(
            (
                (if x != 0 {
                    seq![NativeOpV::ScrollH(x)]
                } else {
                    Seq::empty()
                }) + (if y != 0 {
                    seq![NativeOpV::ScrollV(y)]
                } else {
                    Seq::empty()
                }),
                delta_msg(encode_utf8("Scrolled by "@), x, y),
            ),
        ),
        ActionV::OpenWebsite(u) => {
            if url_scheme_ok(u) {
                Result::Ok(
                    (seq![NativeOpV::OpenUrl(u)], encode_utf8("Opened website: "@) + u),
                )
            } else {
                Result::Err(encode_utf8("Invalid URL: must start with http:// or https://"@))
            }
        },
    }
}

/// Append `(x, y)` to a message under construction.
fn push_deltas(out: &mut Vec<u8>, x: i64, y: i64)
    ensures
        final(out)@ == old(out)@ + encode_utf8("("@) + dec_i64(x) + encode_utf8(", "@) + dec_i64(y)
            + encode_utf8(")"@),
{
    let part1 = lit("(");
    extend(out, part1.as_slice());
    let xs = format_i64(x);
    extend(out, xs.as_slice());
    let part2 = lit(", ");
    extend(out, part2.as_slice());
    let ys = format_i64(y);
    extend(out, ys.as_slice());
    let part3 = lit(")");
    extend(out, part3.as_slice());
}

/// Plan one action: the operations to perform and the success message, or
/// the rejection.
pub fn plan_action(a: &Action) -> (r: Result<(Vec<NativeOp>, Vec<u8>), Vec<u8>>)
    ensures
        match r {
            Result::Ok((ops, msg)) => action_plan(a@) == Result::<
                (Seq<NativeOpV>, Seq<u8>),
                Seq<u8>,
            >::Ok((ops_view(ops@), msg@)),
            Result::Err(e) => action_plan(a@) == Result::<
                (Seq<NativeOpV>, Seq<u8>),
                Seq<u8>,
            >::Err(e@),
        },
{
    match a {
        Action::PlayPause => Result::Ok(
            (one_op(NativeOp::KeyPress(NamedKey::Space)), lit("Play/pause command sent")),
        ),
        Action::MediaPrevious => Result::Ok(
            (one_op(NativeOp::TapChar(106)), lit("Media previous command sent")),
        ),
        Action::MediaNext => Result::Ok(
            (one_op(NativeOp::TapChar(108)), lit("Media next command sent")),
        ),
        Action::MediaStop => Result::Ok(
            (one_op(NativeOp::TapChar(107)), lit("Media stop command sent")),
        ),
        Action::VolumeUp => Result::Ok(
            (one_op(NativeOp::KeyPress(NamedKey::VolumeUp)), lit("Volume up command sent")),
        ),
        Action::VolumeDown => Result::Ok(
            (one_op(NativeOp::KeyPress(NamedKey::VolumeDown)), lit("Volume down command sent")),
        ),
        Action::VolumeMute => Result::Ok(
            (one_op(NativeOp::KeyPress(NamedKey::VolumeMute)), lit("Volume mute command sent")),
        ),
        Action::VolumeSet(v) => {
            let mut msg = lit("Volume set to ");
            let d = format_u64(*v as u64);
            extend(&mut msg, d.as_slice());
            let pct = lit("%");
            extend(&mut msg, pct.as_slice());
            Result::Ok((one_op(NativeOp::SetVolume(*v)), msg))
        },
        Action::BrightnessUp => Result::Ok(
            (one_op(NativeOp::KeyPress(NamedKey::F2)), lit("Brightness up command sent")),
        ),
        Action::BrightnessDown => Result::Ok(
            (one_op(NativeOp::KeyPress(NamedKey::F1)), lit("Brightness down command sent")),
        ),
        Action::BrightnessSet(v) => {
            let mut msg = lit("Brightness set to ");
            let d = format_u64(*v as u64);
            extend(&mut msg, d.as_slice());
            let pct = lit("%");
            extend(&mut msg, pct.as_slice());
            Result::Ok((one_op(NativeOp::SetBrightness(*v)), msg))
        },
        Action::SendKey(n) => match key_of_name(n.as_slice()) {
            Option::None => {
                let mut e = lit("Unknown key: ");
                extend(&mut e, n.as_slice());
                Result::Err(e)
            },
            Option::Some(KeyAction::Named(k)) => {
                Result::Ok((one_op(NativeOp::KeyPress(k)), key_msg(n.as_slice())))
            },
            Option::Some(KeyAction::Char(c)) => {
                let mut t: Vec<u8> = Vec::new();
                t.push(c);
                proof {
                    assert(t@ =~= seq![c]);
                }
                Result::Ok((one_op(NativeOp::TypeText(t)), key_msg(n.as_slice())))
            },
        },
        Action::TextInput(t) => {
            let mut msg = lit("Text input successful (");
            let d = format_u64(t.len() as u64);
            extend(&mut msg, d.as_slice());
            let tail = lit(" characters)");
            extend(&mut msg, tail.as_slice());
            let owned = vstd::slice::slice_to_vec(t.as_slice());
            Result::Ok((one_op(NativeOp::TypeText(owned)), msg))
        },
        Action::MouseMove(x, y) => {
            let mut msg = lit("Mouse moved by ");
            push_deltas(&mut msg, *x, *y);
            Result::Ok((one_op(NativeOp::MoveMouseRel(*x, *y)), msg))
        },
        Action::MouseClick(b) => match button_of_name(b.as_slice()) {
            Option::None => {
                let mut e = lit("Unsupported mouse button: ");
                extend(&mut e, b.as_slice());
                Result::Err(e)
            },
            Option::Some(mb) => {
                let mut msg = lit("Mouse ");
                extend(&mut msg, b.as_slice());
                let tail = lit(" clicked");
                extend(&mut msg, tail.as_slice());
                Result::Ok((one_op(NativeOp::PressButton(mb)), msg))
            },
        },
        Action::Scroll(x, y) => {
            let mut ops: Vec<NativeOp> = Vec::new();
            if *x != 0 {
                ops.push(NativeOp::ScrollH(*x));
            }
            if *y != 0 {
                ops.push(NativeOp::ScrollV(*y));
            }
            let mut msg = lit("Scrolled by ");
            push_deltas(&mut msg, *x, *y);
            proof {
                assert(ops_view(ops@) =~= (if a@->Scroll_0 != 0 {
                    seq![NativeOpV::ScrollH(a@->Scroll_0)]
                } else {
                    Seq::<NativeOpV>::empty()
                }) + (if a@->Scroll_1 != 0 {
                    seq![NativeOpV::ScrollV(a@->Scroll_1)]
                } else {
                    Seq::<NativeOpV>::empty()
                }));
            }
            Result::Ok((ops, msg))
        },
        Action::OpenWebsite(u) => {
            let http = lit("http://");
            let https = lit("https://");
            if starts_with(u.as_slice(), http.as_slice()) || starts_with(
                u.as_slice(),
                https.as_slice(),
            ) {
                let mut msg = lit("Opened website: ");
                extend(&mut msg, u.as_slice());
                let owned = vstd::slice::slice_to_vec(u.as_slice());
                Result::Ok((one_op(NativeOp::OpenUrl(owned)), msg))
            } else {
                Result::Err(lit("Invalid URL: must start with http:// or https://"))
            }
        },
    }
}

/// A single-operation list.
fn one_op(op: NativeOp) -> (r: Vec<NativeOp>)
    ensures
        ops_view(r@) == seq![op@],
{
    let mut v: Vec<NativeOp> = Vec::new();
    let ghost opv = op@;
    v.push(op);
    proof {
        assert(ops_view(v@) =~= seq![opv]);
    }
    v
}

/// The key-sent message for a name.
fn key_msg(n: &[u8]) -> (r: Vec<u8>)
    ensures
        r@ == key_sent_msg(n@),
{
    let head = lit("Key '");
    let tail = lit("' sent successfully");
    concat3(head.as_slice(), n, tail.as_slice())
}

/// The failure message for an action whose native operation reported an
/// error: the operation's own wording, with the native error text appended.
pub open spec fn action_failure_msg(a: ActionV, err: Seq<u8>) -> Seq<u8> {
    match a {
        ActionV::PlayPause => encode_utf8("Failed to send play/pause key: "@) + err,
        ActionV::MediaPrevious => encode_utf8("Failed to send media previous key: "@) + err,
        ActionV::MediaNext => encode_utf8("Failed to send media next key: "@) + err,
        ActionV::MediaStop => encode_utf8("Failed to send media stop key: "@) + err,
        ActionV::VolumeUp => encode_utf8("Failed to send volume up key: "@) + err,
        ActionV::VolumeDown => encode_utf8("Failed to send volume down key: "@) + err,
        ActionV::VolumeMute => encode_utf8("Failed to send volume mute key: "@) + err,
        ActionV::VolumeSet(v) => encode_utf8("Failed to set volume: "@) + err,
        ActionV::BrightnessUp => encode_utf8("Failed to send F2 key: "@) + err,
        ActionV::BrightnessDown => encode_utf8("Failed to send F1 key: "@) + err,
        ActionV::BrightnessSet(v) => encode_utf8("Failed to set brightness: "@) + err,
        ActionV::SendKey(n) => encode_utf8("Failed to press key '"@) + n + encode_utf8("': "@)
            + err,
        ActionV::TextInput(t) => encode_utf8("Text input failed: "@) + err,
        ActionV::MouseMove(x, y) => encode_utf8("Failed to move mouse: "@) + err,
        ActionV::MouseClick(b) => encode_utf8("Failed to click mouse button '"@) + b
            + encode_utf8("': "@) + err,
        ActionV::Scroll(x, y) => encode_utf8("Failed to scroll: "@) + err,
        ActionV::OpenWebsite(u) => encode_utf8("Failed to open URL: "@) + err,
    }
}

/// Compose the failure message for an action and the native error text the
/// shell observed.
pub fn failure_message(a: &Action, err: &[u8]) -> (r: Vec<u8>)
    ensures
        r@ == action_failure_msg(a@, err@),
{
    match a {
        Action::PlayPause => prefixed(lit("Failed to send play/pause key: "), err),
        Action::MediaPrevious => prefixed(lit("Failed to send media previous key: "), err),
        Action::MediaNext => prefixed(lit("Failed to send media next key: "), err),
        Action::MediaStop => prefixed(lit("Failed to send media stop key: "), err),
        Action::VolumeUp => prefixed(lit("Failed to send volume up key: "), err),
        Action::VolumeDown => prefixed(lit("Failed to send volume down key: "), err),
        Action::VolumeMute => prefixed(lit("Failed to send volume mute key: "), err),
        Action::VolumeSet(_) => prefixed(lit("Failed to set volume: "), err),
        Action::BrightnessUp => prefixed(lit("Failed to send F2 key: "), err),
        Action::BrightnessDown => prefixed(lit("Failed to send F1 key: "), err),
        Action::BrightnessSet(_) => prefixed(lit("Failed to set brightness: "), err),
        Action::SendKey(n) => {
            let mut msg = concat3(
                lit("Failed to press key '").as_slice(),
                n.as_slice(),
                lit("': ").as_slice(),
            );
            extend(&mut msg, err);
            msg
        },
        Action::TextInput(_) => prefixed(lit("Text input failed: "), err),
        Action::MouseMove(_, _) => prefixed(lit("Failed to move mouse: "), err),
        Action::MouseClick(b) => {
            let mut msg = concat3(
                lit("Failed to click mouse button '").as_slice(),
                b.as_slice(),
                lit("': ").as_slice(),
            );
            extend(&mut msg, err);
            msg
        },
        Action::Scroll(_, _) => prefixed(lit("Failed to scroll: "), err),
        Action::OpenWebsite(_) => prefixed(lit("Failed to open URL: "), err),
    }
}

/// A prefix with a tail appended.
fn prefixed(prefix: Vec<u8>, tail: &[u8]) -> (r: Vec<u8>)
    ensures
        r@ == prefix@ + tail@,
{
    let mut out = prefix;
    extend(&mut out, tail);
    out
}

/// The message for an action whose isolated worker died instead of
/// reporting: a fault in the native layer downgrades to this error.
pub open spec fn worker_failure_msg(a: ActionV) -> Seq<u8> {
    match a {
        ActionV::PlayPause => encode_utf8("Play/pause operation failed"@),
        ActionV::MediaPrevious => encode_utf8("Media previous operation failed"@),
        ActionV::MediaNext => encode_utf8("Media next operation failed"@),
        ActionV::MediaStop => encode_utf8("Media stop operation failed"@),
        ActionV::VolumeUp => encode_utf8("Volume up operation failed"@),
        ActionV::VolumeDown => encode_utf8("Volume down operation failed"@),
        ActionV::VolumeMute => encode_utf8("Volume mute operation failed"@),
        ActionV::VolumeSet(v) => encode_utf8("Volume set operation failed"@),
        ActionV::BrightnessUp => encode_utf8("Brightness up operation failed"@),
        ActionV::BrightnessDown => encode_utf8("Brightness down operation failed"@),
        ActionV::BrightnessSet(v) => encode_utf8("Brightness set operation failed"@),
        ActionV::SendKey(n) => encode_utf8("Send key operation failed"@),
        ActionV::TextInput(t) => encode_utf8("Text input operation failed"@),
        ActionV::MouseMove(x, y) => encode_utf8("Mouse move operation failed"@),
        ActionV::MouseClick(b) => encode_utf8("Mouse click operation failed"@),
        ActionV::Scroll(x, y) => encode_utf8("Scroll operation failed"@),
        ActionV::OpenWebsite(u) => encode_utf8("Open website operation failed"@),
    }
}

/// Compose the worker-death message for an action.
pub fn worker_failure_message(a: &Action) -> (r: Vec<u8>)
    ensures
        r@ == worker_failure_msg(a@),
{
    match a {
        Action::PlayPause => lit("Play/pause operation failed"),
        Action::MediaPrevious => lit("Media previous operation failed"),
        Action::MediaNext => lit("Media next operation failed"),
        Action::MediaStop => lit("Media stop operation failed"),
        Action::VolumeUp => lit("Volume up operation failed"),
        Action::VolumeDown => lit("Volume down operation failed"),
        Action::VolumeMute => lit("Volume mute operation failed"),
        Action::VolumeSet(_) => lit("Volume set operation failed"),
        Action::BrightnessUp => lit("Brightness up operation failed"),
        Action::BrightnessDown => lit("Brightness down operation failed"),
        Action::BrightnessSet(_) => lit("Brightness set operation failed"),
        Action::SendKey(_) => lit("Send key operation failed"),
        Action::TextInput(_) => lit("Text input operation failed"),
        Action::MouseMove(_, _) => lit("Mouse move operation failed"),
        Action::MouseClick(_) => lit("Mouse click operation failed"),
        Action::Scroll(_, _) => lit("Scroll operation failed"),
        Action::OpenWebsite(_) => lit("Open website operation failed"),
    }
}

/// Law: a URL without an `http://` or `https://` scheme is rejected with a
/// message citing the scheme rule, and no operation is planned; with an
/// accepted scheme, the single planned operation hands exactly that URL to
/// the system opener.
pub proof fn lemma_open_website_scheme(u: Seq<u8>)
    ensures
        !url_scheme_ok(u) ==> action_plan(ActionV::OpenWebsite(u)) == Result::<
            (Seq<NativeOpV>, Seq<u8>),
            Seq<u8>,
        >::Err(encode_utf8("Invalid URL: must start with http:// or https://"@)),
        url_scheme_ok(u) ==> action_plan(ActionV::OpenWebsite(u)) == Result::<
            (Seq<NativeOpV>, Seq<u8>),
            Seq<u8>,
        >::Ok((seq![NativeOpV::OpenUrl(u)], encode_utf8("Opened website: "@) + u)),
{
}

} // verus!
