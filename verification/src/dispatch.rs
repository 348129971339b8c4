//! The command dispatcher: from a parsed command to either an immediate
//! response (validation failure, unknown name, or a text-input
//! short-circuit) or an executor action to invoke; and from an executor
//! outcome back to the response envelope.  Every response carries the
//! command's own correlation id.

use vstd::prelude::*;
use vstd::utf8::encode_utf8;
use crate::bytestr::{bytes_eq, lit};
use crate::command::{field_str, field_u64, field_i64, Command, CommandV};
use crate::parse::{parse_frame, sp_frame};
use crate::wire::{opt_bytes, Reply, Response, Status};

verus! {

/// One executor operation, with the plain values it needs.  Mouse and
/// scroll deltas stay as extracted; the input-simulation layer narrows them
/// to its own range when it performs the move.
#[derive(Debug, PartialEq)]
pub enum Action {
    PlayPause,
    MediaPrevious,
    MediaNext,
    MediaStop,
    VolumeUp,
    VolumeDown,
    VolumeMute,
    VolumeSet(u8),
    BrightnessUp,
    BrightnessDown,
    BrightnessSet(u8),
    SendKey(Vec<u8>),
    TextInput(Vec<u8>),
    MouseMove(i64, i64),
    MouseClick(Vec<u8>),
    Scroll(i64, i64),
    OpenWebsite(Vec<u8>),
}

/// Spec-level mirror of `Action`.
pub enum ActionV {
    PlayPause,
    MediaPrevious,
    MediaNext,
    MediaStop,
    VolumeUp,
    VolumeDown,
    VolumeMute,
    VolumeSet(u8),
    BrightnessUp,
    BrightnessDown,
    BrightnessSet(u8),
    SendKey(Seq<u8>),
    TextInput(Seq<u8>),
    MouseMove(i64, i64),
    MouseClick(Seq<u8>),
    Scroll(i64, i64),
    OpenWebsite(Seq<u8>),
}

impl View for Action {
    type V = ActionV;

    open spec fn view(&self) -> ActionV {
        match self {
            Action::PlayPause => ActionV::PlayPause,
            Action::MediaPrevious => ActionV::MediaPrevious,
            Action::MediaNext => ActionV::MediaNext,
            Action::MediaStop => ActionV::MediaStop,
            Action::VolumeUp => ActionV::VolumeUp,
            Action::VolumeDown => ActionV::VolumeDown,
            Action::VolumeMute => ActionV::VolumeMute,
            Action::VolumeSet(v) => ActionV::VolumeSet(*v),
            Action::BrightnessUp => ActionV::BrightnessUp,
            Action::BrightnessDown => ActionV::BrightnessDown,
            Action::BrightnessSet(v) => ActionV::BrightnessSet(*v),
            Action::SendKey(k) => ActionV::SendKey(k@),
            Action::TextInput(t) => ActionV::TextInput(t@),
            Action::MouseMove(x, y) => ActionV::MouseMove(*x, *y),
            Action::MouseClick(b) => ActionV::MouseClick(b@),
            Action::Scroll(x, y) => ActionV::Scroll(*x, *y),
            Action::OpenWebsite(u) => ActionV::OpenWebsite(u@),
        }
    }
}

/// What a command dispatches to: an immediate response, or an invocation of
/// one executor action, keeping the correlation id for the eventual
/// response.
#[derive(Debug, PartialEq)]
pub enum Plan {
    Respond(Response),
    Invoke(Option<Vec<u8>>, Action),
}

/// Spec-level mirror of `Plan`.
pub enum PlanV {
    Respond(Option<Seq<u8>>, Status, Seq<u8>),
    Invoke(Option<Seq<u8>>, ActionV),
}

impl View for Plan {
    type V = PlanV;

    open spec fn view(&self) -> PlanV {
        match self {
            Plan::Respond(r) => PlanV::Respond(opt_bytes(r.id), r.status, r.message@),
            Plan::Invoke(id, a) => PlanV::Invoke(
                match id {
                    Option::None => Option::None,
                    Option::Some(i) => Option::Some(i@),
                },
                a@,
            ),
        }
    }
}

/// An error response plan.
pub open spec fn respond_err(id: Option<Seq<u8>>, m: Seq<u8>) -> PlanV {
    PlanV::Respond(id, Status::Error, m)
}

/// The number of characters a UTF-8 byte string holds: one per byte that is
/// not a continuation byte.
pub open spec fn char_count(s: Seq<u8>) -> int
    decreases s.len(),
{
    if s.len() == 0 {
        0
    } else {
        (if 128 <= s[0] < 192 {
            0int
        } else {
            1int
        }) + char_count(s.drop_first())
    }
}

/// The error message for an unknown command name.
pub open spec fn unknown_msg(n: Seq<u8>) -> Seq<u8> {
    encode_utf8("Unknown command: "@) + n
}

/// The whole dispatch table: what each command name does with its payload.
/// Every operation with required fields fails before invocation when a
/// field is absent or of the wrong type — the mouse and scroll deltas
/// included; `text_input` short-circuits on empty text and rejects text
/// over 1000 characters; every other known name maps straight to its
/// action.
pub open spec fn plan_spec(c: CommandV) -> PlanV {
    let n = c.name;
    let id = c.id;
    if n == encode_utf8("play_pause"@) {
        PlanV::Invoke(id, ActionV::PlayPause)
    } else if n == encode_utf8("media_previous"@) {
        PlanV::Invoke(id, ActionV::MediaPrevious)
    } else if n == encode_utf8("media_next"@) {
        PlanV::Invoke(id, ActionV::MediaNext)
    } else if n == encode_utf8("media_stop"@) {
        PlanV::Invoke(id, ActionV::MediaStop)
    } else if n == encode_utf8("volume_up"@) {
        PlanV::Invoke(id, ActionV::VolumeUp)
    } else if n == encode_utf8("volume_down"@) {
        PlanV::Invoke(id, ActionV::VolumeDown)
    } else if n == encode_utf8("volume_mute"@) {
        PlanV::Invoke(id, ActionV::VolumeMute)
    } else if n == encode_utf8("volume_set"@) {
        if c.data is None {
            respond_err(id, encode_utf8("Missing data for volume_set command"@))
        } else {
            match field_u64(c.data, encode_utf8("value"@)) {
                Option::Some(v) => PlanV::Invoke(id, ActionV::VolumeSet((v % 256) as u8)),
                Option::None => respond_err(
                    id,
                    encode_utf8("Missing or invalid 'value' parameter"@),
                ),
            }
        }
    } else if n == encode_utf8("brightness_up"@) {
        PlanV::Invoke(id, ActionV::BrightnessUp)
    } else if n == encode_utf8("brightness_down"@) {
        PlanV::Invoke(id, ActionV::BrightnessDown)
    } else if n == encode_utf8("brightness_set"@) {
        if c.data is None {
            respond_err(id, encode_utf8("Missing data for brightness_set command"@))
        } else {
            match field_u64(c.data, encode_utf8("value"@)) {
                Option::Some(v) => PlanV::Invoke(id, ActionV::BrightnessSet((v % 256) as u8)),
                Option::None => respond_err(
                    id,
                    encode_utf8("Missing or invalid 'value' parameter"@),
                ),
            }
        }
    } else if n == encode_utf8("send_key"@) {
        if c.data is None {
            respond_err(id, encode_utf8("Missing data for send_key command"@))
        } else {
            match field_str(c.data, encode_utf8("key"@)) {
                Option::Some(k) => PlanV::Invoke(id, ActionV::SendKey(k)),
                Option::None => respond_err(id, encode_utf8("Missing 'key' parameter"@)),
            }
        }
    } else if n == encode_utf8("text_input"@) {
        if c.data is None {
            respond_err(id, encode_utf8("Missing data for text_input command"@))
        } else {
            match field_str(c.data, encode_utf8("text"@)) {
                Option::None => respond_err(
                    id,
                    encode_utf8("Missing or invalid 'text' parameter"@),
                ),
                Option::Some(t) => {
                    if t.len() == 0 {
                        PlanV::Respond(id, Status::Success, encode_utf8("Empty text input ignored"@))
                    } else if char_count(t) > 1000 {
                        PlanV::Respond(
                            id,
                            Status::Error,
                            encode_utf8("Text too long (max 1000 characters)"@),
                        )
                    } else {
                        PlanV::Invoke(id, ActionV::TextInput(t))
                    }
                },
            }
        }
    } else if n == encode_utf8("mouse_move"@) {
        if c.data is None {
            respond_err(id, encode_utf8("Missing data for mouse_move command"@))
        } else {
            match (field_i64(c.data, encode_utf8("deltaX"@)), field_i64(
                c.data,
                encode_utf8("deltaY"@),
            )) {
                (Option::Some(dx), Option::Some(dy)) => PlanV::Invoke(
                    id,
                    ActionV::MouseMove(dx, dy),
                ),
                (Option::None, _) => respond_err(
                    id,
                    encode_utf8("Missing or invalid 'deltaX' parameter"@),
                ),
                (_, Option::None) => respond_err(
                    id,
                    encode_utf8("Missing or invalid 'deltaY' parameter"@),
                ),
            }
        }
    } else if n == encode_utf8("mouse_click"@) {
        if c.data is None {
            respond_err(id, encode_utf8("Missing data for mouse_click command"@))
        } else {
            match field_str(c.data, encode_utf8("button"@)) {
                Option::Some(b) => PlanV::Invoke(id, ActionV::MouseClick(b)),
                Option::None => respond_err(id, encode_utf8("Missing 'button' parameter"@)),
            }
        }
    } else if n == encode_utf8("scroll"@) {
        if c.data is None {
            respond_err(id, encode_utf8("Missing data for scroll command"@))
        } else {
            match (field_i64(c.data, encode_utf8("deltaX"@)), field_i64(
                c.data,
                encode_utf8("deltaY"@),
            )) {
                (Option::Some(dx), Option::Some(dy)) => PlanV::Invoke(
                    id,
                    ActionV::Scroll(dx, dy),
                ),
                (Option::None, _) => respond_err(
                    id,
                    encode_utf8("Missing or invalid 'deltaX' parameter"@),
                ),
                (_, Option::None) => respond_err(
                    id,
                    encode_utf8("Missing or invalid 'deltaY' parameter"@),
                ),
            }
        }
    } else if n == encode_utf8("open_website"@) {
        if c.data is None {
            respond_err(id, encode_utf8("Missing data for open_website command"@))
        } else {
            match field_str(c.data, encode_utf8("url"@)) {
                Option::Some(u) => PlanV::Invoke(id, ActionV::OpenWebsite(u)),
                Option::None => respond_err(id, encode_utf8("Missing 'url' parameter"@)),
            }
        }
    } else {
        respond_err(id, unknown_msg(n))
    }
}

/// Count the characters of a UTF-8 byte string.
pub fn count_chars(s: &[u8]) -> (n: usize)
    ensures
        n as int == char_count(s@),
{
    let mut n: usize = 0;
    let mut t: usize = 0;
    proof {
        assert(s@.subrange(0, s@.len() as int) =~= s@);
    }
    while t < s.len()
        invariant
            t <= s@.len(),
            n <= t,
            char_count(s@) == n + char_count(s@.subrange(t as int, s@.len() as int)),
        decreases s@.len() - t,
    {
        let ghost suffix = s@.subrange(t as int, s@.len() as int);
        proof {
            assert(suffix[0] == s@[t as int]);
            assert(suffix.drop_first() =~= s@.subrange(t as int + 1, s@.len() as int));
        }
        if !(128 <= s[t] && s[t] < 192) {
            n += 1;
        }
        t += 1;
    }
    proof {
        assert(char_count(s@.subrange(s@.len() as int, s@.len() as int)) == 0);
    }
    n
}

/// Copy an optional byte string.
fn copy_opt_bytes(o: &Option<Vec<u8>>) -> (r: Option<Vec<u8>>)
    ensures
        opt_bytes(r) == match o {
            Option::None => Option::None,
            Option::Some(v) => Option::Some(v@),
        },
{
    match o {
        Option::None => Option::None,
        Option::Some(v) => Option::Some(vstd::slice::slice_to_vec(v.as_slice())),
    }
}

/// Dispatch one command: exactly the plan the dispatch table gives it.
pub fn plan_command(c: &Command) -> (p: Plan)
    ensures
        p@ == plan_spec(c@),
{
    let id = copy_opt_bytes(&c.id);
    let n = c.name.as_slice();
    let has_data = match &c.data {
        Option::Some(_) => true,
        Option::None => false,
    };
    if bytes_eq(n, lit("play_pause").as_slice()) {
        Plan::Invoke(id, Action::PlayPause)
    } else if bytes_eq(n, lit("media_previous").as_slice()) {
        Plan::Invoke(id, Action::MediaPrevious)
    } else if bytes_eq(n, lit("media_next").as_slice()) {
        Plan::Invoke(id, Action::MediaNext)
    } else if bytes_eq(n, lit("media_stop").as_slice()) {
        Plan::Invoke(id, Action::MediaStop)
    } else if bytes_eq(n, lit("volume_up").as_slice()) {
        Plan::Invoke(id, Action::VolumeUp)
    } else if bytes_eq(n, lit("volume_down").as_slice()) {
        Plan::Invoke(id, Action::VolumeDown)
    } else if bytes_eq(n, lit("volume_mute").as_slice()) {
        Plan::Invoke(id, Action::VolumeMute)
    } else if bytes_eq(n, lit("volume_set").as_slice()) {
        if !has_data {
            Plan::Respond(err_response(id, "Missing data for volume_set command"))
        } else {
            match c.get_u64(lit("value").as_slice()) {
                Option::Some(v) => Plan::Invoke(id, Action::VolumeSet((v % 256) as u8)),
                Option::None => Plan::Respond(
                    err_response(id, "Missing or invalid 'value' parameter"),
                ),
            }
        }
    } else if bytes_eq(n, lit("brightness_up").as_slice()) {
        Plan::Invoke(id, Action::BrightnessUp)
    } else if bytes_eq(n, lit("brightness_down").as_slice()) {
        Plan::Invoke(id, Action::BrightnessDown)
    } else if bytes_eq(n, lit("brightness_set").as_slice()) {
        if !has_data {
            Plan::Respond(err_response(id, "Missing data for brightness_set command"))
        } else {
            match c.get_u64(lit("value").as_slice()) {
                Option::Some(v) => Plan::Invoke(id, Action::BrightnessSet((v % 256) as u8)),
                Option::None => Plan::Respond(
                    err_response(id, "Missing or invalid 'value' parameter"),
                ),
            }
        }
    } else if bytes_eq(n, lit("send_key").as_slice()) {
        if !has_data {
            Plan::Respond(err_response(id, "Missing data for send_key command"))
        } else {
            match c.get_str(lit("key").as_slice()) {
                Option::Some(k) => {
                    let owned = vstd::slice::slice_to_vec(k.as_slice());
                    Plan::Invoke(id, Action::SendKey(owned))
                },
                Option::None => Plan::Respond(err_response(id, "Missing 'key' parameter")),
            }
        }
    } else if bytes_eq(n, lit("text_input").as_slice()) {
        if !has_data {
            Plan::Respond(err_response(id, "Missing data for text_input command"))
        } else {
            match c.get_str(lit("text").as_slice()) {
                Option::None => Plan::Respond(
                    err_response(id, "Missing or invalid 'text' parameter"),
                ),
                Option::Some(t) => {
                    if t.len() == 0 {
                        Plan::Respond(
                            Response {
                                id,
                                status: Status::Success,
                                message: lit("Empty text input ignored"),
                            },
                        )
                    } else if count_chars(t.as_slice()) > 1000 {
                        Plan::Respond(err_response(id, "Text too long (max 1000 characters)"))
                    } else {
                        let owned = vstd::slice::slice_to_vec(t.as_slice());
                        Plan::Invoke(id, Action::TextInput(owned))
                    }
                },
            }
        }
    } else if bytes_eq(n, lit("mouse_move").as_slice()) {
        if !has_data {
            Plan::Respond(err_response(id, "Missing data for mouse_move command"))
        } else {
            match (c.get_i64(lit("deltaX").as_slice()), c.get_i64(lit("deltaY").as_slice())) {
                (Option::Some(dx), Option::Some(dy)) => Plan::Invoke(
                    id,
                    Action::MouseMove(dx, dy),
                ),
                (Option::None, _) => Plan::Respond(
                    err_response(id, "Missing or invalid 'deltaX' parameter"),
                ),
                (_, Option::None) => Plan::Respond(
                    err_response(id, "Missing or invalid 'deltaY' parameter"),
                ),
            }
        }
    } else if bytes_eq(n, lit("mouse_click").as_slice()) {
        if !has_data {
            Plan::Respond(err_response(id, "Missing data for mouse_click command"))
        } else {
            match c.get_str(lit("button").as_slice()) {
                Option::Some(b) => {
                    let owned = vstd::slice::slice_to_vec(b.as_slice());
                    Plan::Invoke(id, Action::MouseClick(owned))
                },
                Option::None => Plan::Respond(err_response(id, "Missing 'button' parameter")),
            }
        }
    } else if bytes_eq(n, lit("scroll").as_slice()) {
        if !has_data {
            Plan::Respond(err_response(id, "Missing data for scroll command"))
        } else {
            match (c.get_i64(lit("deltaX").as_slice()), c.get_i64(lit("deltaY").as_slice())) {
                (Option::Some(dx), Option::Some(dy)) => Plan::Invoke(id, Action::Scroll(dx, dy)),
                (Option::None, _) => Plan::Respond(
                    err_response(id, "Missing or invalid 'deltaX' parameter"),
                ),
                (_, Option::None) => Plan::Respond(
                    err_response(id, "Missing or invalid 'deltaY' parameter"),
                ),
            }
        }
    } else if bytes_eq(n, lit("open_website").as_slice()) {
        if !has_data {
            Plan::Respond(err_response(id, "Missing data for open_website command"))
        } else {
            match c.get_str(lit("url").as_slice()) {
                Option::Some(u) => {
                    let owned = vstd::slice::slice_to_vec(u.as_slice());
                    Plan::Invoke(id, Action::OpenWebsite(owned))
                },
                Option::None => Plan::Respond(err_response(id, "Missing 'url' parameter")),
            }
        }
    } else {
        let mut msg = lit("Unknown command: ");
        crate::bytestr::extend(&mut msg, n);
        Plan::Respond(Response { id, status: Status::Error, message: msg })
    }
}

/// An error response with a literal message.
fn err_response(id: Option<Vec<u8>>, m: &str) -> (r: Response)
    ensures
        opt_bytes(r.id) == opt_bytes(id),
        r.status == Status::Error,
        r.message@ == encode_utf8(m@),
{
    Response { id, status: Status::Error, message: lit(m) }
}

/// Settle an executor outcome into the response envelope: a reply passes
/// its status and message through; an error becomes an error response.  The
/// correlation id is kept either way.
pub fn settle(id: Option<Vec<u8>>, outcome: Result<Reply, Vec<u8>>) -> (r: Response)
    ensures
        opt_bytes(r.id) == opt_bytes(id),
        match outcome {
            Result::Ok(rep) => r.status == rep.status && r.message@ == rep.message@,
            Result::Err(e) => r.status == Status::Error && r.message@ == e@,
        },
{
    match outcome {
        Result::Ok(rep) => Response { id, status: rep.status, message: rep.message },
        Result::Err(e) => Response { id, status: Status::Error, message: e },
    }
}

/// The response when a dispatched command exceeds its time budget: an error
/// with the command's own correlation id.
pub fn timeout_response(id: Option<Vec<u8>>) -> (r: Response)
    ensures
        opt_bytes(r.id) == opt_bytes(id),
        r.status == Status::Error,
        r.message@ == encode_utf8("Command timed out"@),
{
    Response { id, status: Status::Error, message: lit("Command timed out") }
}

/// The response to a frame that does not parse as a command: an error with
/// a null correlation id; the session stays open.
pub fn invalid_frame_response() -> (r: Response)
    ensures
        r.id is None,
        r.status == Status::Error,
        r.message@ == encode_utf8("Invalid command format"@),
{
    Response { id: Option::None, status: Status::Error, message: lit("Invalid command format") }
}

/// Dispatch one raw frame: parse errors answer with a null-id error
/// response, anything else follows the dispatch table.
pub fn plan_frame(frame: &[u8]) -> (p: Plan)
    ensures
        match sp_frame(frame@) {
            Option::None => p@ == PlanV::Respond(
                Option::None,
                Status::Error,
                encode_utf8("Invalid command format"@),
            ),
            Option::Some(cv) => p@ == plan_spec(cv),
        },
{
    match parse_frame(frame) {
        Option::None => Plan::Respond(invalid_frame_response()),
        Option::Some(c) => plan_command(&c),
    }
}

/// Law: every plan carries the command's own correlation id, whether it
/// responds at once or invokes an action — including when both ids are
/// absent.
pub proof fn lemma_plan_id_echo(c: CommandV)
    ensures
        match plan_spec(c) {
            PlanV::Respond(id, st, m) => id == c.id,
            PlanV::Invoke(id, a) => id == c.id,
        },
{
}

/// Law: an unknown command name always yields an error response whose
/// message names the command: `Unknown command: ` followed by the name.
pub proof fn lemma_unknown_command(c: CommandV)
    requires
        !known_name(c.name),
    ensures
        plan_spec(c) == PlanV::Respond(c.id, Status::Error, unknown_msg(c.name)),
{
}

/// The command names the dispatch table knows.
pub open spec fn known_name(n: Seq<u8>) -> bool {
    ||| n == encode_utf8("play_pause"@)
    ||| n == encode_utf8("media_previous"@)
    ||| n == encode_utf8("media_next"@)
    ||| n == encode_utf8("media_stop"@)
    ||| n == encode_utf8("volume_up"@)
    ||| n == encode_utf8("volume_down"@)
    ||| n == encode_utf8("volume_mute"@)
    ||| n == encode_utf8("volume_set"@)
    ||| n == encode_utf8("brightness_up"@)
    ||| n == encode_utf8("brightness_down"@)
    ||| n == encode_utf8("brightness_set"@)
    ||| n == encode_utf8("send_key"@)
    ||| n == encode_utf8("text_input"@)
    ||| n == encode_utf8("mouse_move"@)
    ||| n == encode_utf8("mouse_click"@)
    ||| n == encode_utf8("scroll"@)
    ||| n == encode_utf8("open_website"@)
}

/// Law: `text_input` with empty text succeeds at once, invoking nothing.
pub proof fn lemma_text_input_empty(c: CommandV)
    requires
        c.name == encode_utf8("text_input"@),
        c.data is Some,
        field_str(c.data, encode_utf8("text"@)) == Option::Some(Seq::<u8>::empty()),
    ensures
        plan_spec(c) == PlanV::Respond(
            c.id,
            Status::Success,
            encode_utf8("Empty text input ignored"@),
        ),
{
    lemma_cmd_names_distinct();
}

/// Law: `text_input` with text over the 1000-character ceiling is rejected
/// before invocation, with a message naming the limit.
pub proof fn lemma_text_input_too_long(c: CommandV, t: Seq<u8>)
    requires
        c.name == encode_utf8("text_input"@),
        c.data is Some,
        field_str(c.data, encode_utf8("text"@)) == Option::Some(t),
        char_count(t) > 1000,
    ensures
        plan_spec(c) == PlanV::Respond(
            c.id,
            Status::Error,
            encode_utf8("Text too long (max 1000 characters)"@),
        ),
{
    lemma_cmd_names_distinct();
    if char_count(t) > 1000 {
        lemma_char_count_nonneg(t);
        assert(t.len() != 0);
    }
}

/// A character count is never negative.
pub proof fn lemma_char_count_nonneg(s: Seq<u8>)
    ensures
        char_count(s) >= 0,
    decreases s.len(),
{
    if s.len() > 0 {
        lemma_char_count_nonneg(s.drop_first());
    }
}

/// Law: the dispatcher never rejects `volume_set` for its range — any
/// integer value present in the payload is handed to the executor, reduced
/// to a byte as the executor's signature asks.
pub proof fn lemma_volume_set_any_value(c: CommandV, v: u64)
    requires
        c.name == encode_utf8("volume_set"@),
        c.data is Some,
        field_u64(c.data, encode_utf8("value"@)) == Option::Some(v),
    ensures
        plan_spec(c) == PlanV::Invoke(c.id, ActionV::VolumeSet((v % 256) as u8)),
{
    lemma_cmd_names_distinct();
}

/// UTF-8 encoding is injective on character sequences.
pub proof fn lemma_encode_injective(a: Seq<char>, b: Seq<char>)
    ensures
        encode_utf8(a) == encode_utf8(b) ==> a == b,
{
    broadcast use vstd::utf8::encode_utf8_decode_utf8;

    if encode_utf8(a) == encode_utf8(b) {
        assert(vstd::utf8::decode_utf8(encode_utf8(a)) == vstd::utf8::decode_utf8(
            encode_utf8(b),
        ));
    }
}

/// The command names that stand before `volume_set` and `text_input` in the
/// dispatch table encode differently from them, so those two branches fire
/// exactly on their own names.
pub proof fn lemma_cmd_names_distinct()
    ensures
        encode_utf8("text_input"@) != encode_utf8("play_pause"@),
        encode_utf8("text_input"@) != encode_utf8("media_previous"@),
        encode_utf8("text_input"@) != encode_utf8("media_next"@),
        encode_utf8("text_input"@) != encode_utf8("media_stop"@),
        encode_utf8("text_input"@) != encode_utf8("volume_up"@),
        encode_utf8("text_input"@) != encode_utf8("volume_down"@),
        encode_utf8("text_input"@) != encode_utf8("volume_mute"@),
        encode_utf8("text_input"@) != encode_utf8("volume_set"@),
        encode_utf8("text_input"@) != encode_utf8("brightness_up"@),
        encode_utf8("text_input"@) != encode_utf8("brightness_down"@),
        encode_utf8("text_input"@) != encode_utf8("brightness_set"@),
        encode_utf8("text_input"@) != encode_utf8("send_key"@),
        encode_utf8("volume_set"@) != encode_utf8("play_pause"@),
        encode_utf8("volume_set"@) != encode_utf8("media_previous"@),
        encode_utf8("volume_set"@) != encode_utf8("media_next"@),
        encode_utf8("volume_set"@) != encode_utf8("media_stop"@),
        encode_utf8("volume_set"@) != encode_utf8("volume_up"@),
        encode_utf8("volume_set"@) != encode_utf8("volume_down"@),
        encode_utf8("volume_set"@) != encode_utf8("volume_mute"@),
{
    reveal_strlit("play_pause");
    reveal_strlit("media_previous");
    reveal_strlit("media_next");
    reveal_strlit("media_stop");
    reveal_strlit("volume_up");
    reveal_strlit("volume_down");
    reveal_strlit("volume_mute");
    reveal_strlit("volume_set");
    reveal_strlit("brightness_up");
    reveal_strlit("brightness_down");
    reveal_strlit("brightness_set");
    reveal_strlit("send_key");
    reveal_strlit("text_input");
    assert("text_input"@[0] != "play_pause"@[0]);
    assert("text_input"@[0] != "media_previous"@[0]);
    assert("text_input"@[0] != "media_next"@[0]);
    assert("text_input"@[0] != "media_stop"@[0]);
    assert("text_input"@[0] != "volume_up"@[0]);
    assert("text_input"@[0] != "volume_down"@[0]);
    assert("text_input"@[0] != "volume_mute"@[0]);
    assert("text_input"@[0] != "volume_set"@[0]);
    assert("text_input"@[0] != "brightness_up"@[0]);
    assert("text_input"@[0] != "brightness_down"@[0]);
    assert("text_input"@[0] != "brightness_set"@[0]);
    assert("text_input"@[0] != "send_key"@[0]);
    assert("volume_set"@[0] != "play_pause"@[0]);
    assert("volume_set"@[0] != "media_previous"@[0]);
    assert("volume_set"@[0] != "media_next"@[0]);
    assert("volume_set"@[0] != "media_stop"@[0]);
    assert("volume_set"@[7] != "volume_up"@[7]);
    assert("volume_set"@[7] != "volume_down"@[7]);
    assert("volume_set"@[7] != "volume_mute"@[7]);
    lemma_encode_injective("text_input"@, "play_pause"@);
    lemma_encode_injective("text_input"@, "media_previous"@);
    lemma_encode_injective("text_input"@, "media_next"@);
    lemma_encode_injective("text_input"@, "media_stop"@);
    lemma_encode_injective("text_input"@, "volume_up"@);
    lemma_encode_injective("text_input"@, "volume_down"@);
    lemma_encode_injective("text_input"@, "volume_mute"@);
    lemma_encode_injective("text_input"@, "volume_set"@);
    lemma_encode_injective("text_input"@, "brightness_up"@);
    lemma_encode_injective("text_input"@, "brightness_down"@);
    lemma_encode_injective("text_input"@, "brightness_set"@);
    lemma_encode_injective("text_input"@, "send_key"@);
    lemma_encode_injective("volume_set"@, "play_pause"@);
    lemma_encode_injective("volume_set"@, "media_previous"@);
    lemma_encode_injective("volume_set"@, "media_next"@);
    lemma_encode_injective("volume_set"@, "media_stop"@);
    lemma_encode_injective("volume_set"@, "volume_up"@);
    lemma_encode_injective("volume_set"@, "volume_down"@);
    lemma_encode_injective("volume_set"@, "volume_mute"@);
}

} // verus!
