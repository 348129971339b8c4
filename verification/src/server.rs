//! The server's control surface and the per-connection session lifecycle.
//!
//! The control state decides what starting, stopping, querying and
//! broadcasting report; the unverified shell owns the actual listener and
//! carries these decisions out.  The session state machine fixes how one
//! accepted connection moves from handshake to open duplex traffic to
//! cleanup; the shell's reader and writer tasks feed it their events.

use vstd::prelude::*;
use vstd::utf8::encode_utf8;
use crate::bytestr::{dec_u64, extend, format_u64, lit};
use crate::wire::{Reply, Status};
use crate::ServerStatus;

verus! {

/// The port used when none is asked for.
pub const DEFAULT_PORT: u16 = 8080;

/// The control state of the single server instance: whether a listener is
/// meant to be running, and on which port.
pub struct ServerControl {
    pub running: bool,
    pub port: u16,
}

/// The message reporting a started server.
pub open spec fn started_msg(p: u16) -> Seq<u8> {
    encode_utf8("WebSocket server started on port "@) + dec_u64(p as u64) + encode_utf8(
        " with frontend"@,
    )
}

impl ServerControl {
    /// Initially stopped.
    pub fn new() -> (s: ServerControl)
        ensures
            !s.running,
    {
        ServerControl { running: false, port: 0 }
    }

    /// Start the server on the given port, 8080 by default.  Starting while
    /// already listening is a no-op that reports informational status.
    pub fn start(&mut self, port: Option<u16>) -> (r: Reply)
        ensures
            old(self).running ==> *final(self) == *old(self) && r.status == Status::Info
                && r.message@ == encode_utf8("WebSocket server is already running"@),
            !old(self).running ==> final(self).running && final(self).port == (match port {
                Option::Some(p) => p,
                Option::None => DEFAULT_PORT,
            }) && r.status == Status::Success && r.message@ == started_msg(final(self).port),
    {
        if self.running {
            return Reply {
                status: Status::Info,
                message: lit("WebSocket server is already running"),
            };
        }
        let p = match port {
            Option::Some(p) => p,
            Option::None => DEFAULT_PORT,
        };
        self.running = true;
        self.port = p;
        let mut msg = lit("WebSocket server started on port ");
        let d = format_u64(p as u64);
        extend(&mut msg, d.as_slice());
        let tail = lit(" with frontend");
        extend(&mut msg, tail.as_slice());
        Reply { status: Status::Success, message: msg }
    }

    /// Stop the server.  Teardown is best-effort: the shell drops its
    /// listener, and sessions in flight run to completion on their own.
    pub fn stop(&mut self) -> (r: Reply)
        ensures
            !old(self).running ==> *final(self) == *old(self) && r.status == Status::Info
                && r.message@ == encode_utf8("WebSocket server is not running"@),
            old(self).running ==> !final(self).running && final(self).port == old(self).port
                && r.status == Status::Success && r.message@ == encode_utf8(
                "WebSocket server and frontend stopped"@,
            ),
    {
        if !self.running {
            return Reply { status: Status::Info, message: lit("WebSocket server is not running") };
        }
        self.running = false;
        Reply { status: Status::Success, message: lit("WebSocket server and frontend stopped") }
    }

    /// The externally visible state: a stopped server reports port 0.
    pub fn status(&self, clients: usize, local_ip: Option<String>) -> (st: ServerStatus)
        ensures
            st.running == self.running,
            st.port == if self.running {
                self.port
            } else {
                0u16
            },
            st.clients == clients,
            st.local_ip == local_ip,
    {
        ServerStatus {
            running: self.running,
            port: if self.running {
                self.port
            } else {
                0
            },
            clients,
            local_ip,
        }
    }

    /// Whether a broadcast may go out, and what to answer: an error when
    /// the server is not running, a success report otherwise.
    pub fn broadcast_permit(&self) -> (r: Result<Reply, Vec<u8>>)
        ensures
            self.running ==> (r matches Result::Ok(rep) && rep.status == Status::Success
                && rep.message@ == encode_utf8("Message broadcasted to all clients"@)),
            !self.running ==> (r matches Result::Err(e) && e@ == encode_utf8(
                "WebSocket server is not running"@,
            )),
    {
        if self.running {
            Result::Ok(
                Reply {
                    status: Status::Success,
                    message: lit("Message broadcasted to all clients"),
                },
            )
        } else {
            Result::Err(lit("WebSocket server is not running"))
        }
    }
}

/// The companion frontend's port.
pub const WEB_APP_PORT: u16 = 3000;

/// The connection details handed to the frontend for the QR code, as a
/// JSON object with its keys in sorted order: the host's address, the two
/// ports, and the two URLs built from them.
pub open spec fn connection_info_of(ip: Seq<u8>) -> Seq<u8> {
    encode_utf8("{\"local_ip\":\""@) + crate::wire::esc(ip) + encode_utf8(
        "\",\"web_app_port\":3000,\"web_app_url\":\"http://"@,
    ) + crate::wire::esc(ip) + encode_utf8(":3000/?ip="@) + crate::wire::esc(ip) + encode_utf8(
        "\",\"websocket_port\":8080,\"websocket_url\":\"ws://"@,
    ) + crate::wire::esc(ip) + encode_utf8(":8080\"}"@)
}

/// Render the connection details for a host address.
pub fn get_connection_info(ip: &[u8]) -> (r: Vec<u8>)
    ensures
        r@ == connection_info_of(ip@),
{
    let mut out = lit("{\"local_ip\":\"");
    crate::wire::push_escaped(&mut out, ip);
    let part1 = lit("\",\"web_app_port\":3000,\"web_app_url\":\"http://");
    extend(&mut out, part1.as_slice());
    crate::wire::push_escaped(&mut out, ip);
    let part2 = lit(":3000/?ip=");
    extend(&mut out, part2.as_slice());
    crate::wire::push_escaped(&mut out, ip);
    let part3 = lit("\",\"websocket_port\":8080,\"websocket_url\":\"ws://");
    extend(&mut out, part3.as_slice());
    crate::wire::push_escaped(&mut out, ip);
    let part4 = lit(":8080\"}");
    extend(&mut out, part4.as_slice());
    proof {
        assert(out@ =~= connection_info_of(ip@));
    }
    out
}

/// Where one accepted connection stands.
#[derive(Clone, Copy, PartialEq, Eq, Structural, Debug)]
pub enum SessionState {
    /// Accepted, handshake not yet done.
    Connecting,
    /// Duplex traffic: frames are read, dispatched and answered, and
    /// broadcast pushes drain through the same outbound channel.
    Open,
    /// A close frame, receive error or send failure ended traffic; the
    /// registry entry is still to be removed.
    Closing,
    /// Cleaned up; nothing more happens on this connection.
    Closed,
}

/// What the shell observed on a session.
#[derive(Clone, Copy, PartialEq, Eq, Structural, Debug)]
pub enum SessionEvent {
    /// The protocol handshake succeeded.
    HandshakeOk,
    /// The protocol handshake failed.
    HandshakeFailed,
    /// One inbound frame was read, dispatched and answered; a malformed
    /// frame counts too, answered with an error response.
    FrameHandled,
    /// The peer sent a close frame.
    CloseFrame,
    /// Reading from the transport failed, or the stream ended.
    ReceiveError,
    /// Writing to the transport failed.
    SendFailed,
    /// The registry entry was removed and resources were released.
    CleanedUp,
}

/// The session lifecycle: handshake failure closes at once; an open session
/// survives any number of handled frames; a close frame, receive error or
/// send failure moves it to cleanup; cleanup closes it; a closed session
/// stays closed.
pub open spec fn session_next(s: SessionState, e: SessionEvent) -> SessionState {
    match s {
        SessionState::Connecting => match e {
            SessionEvent::HandshakeOk => SessionState::Open,
            SessionEvent::HandshakeFailed => SessionState::Closed,
            _ => SessionState::Connecting,
        },
        SessionState::Open => match e {
            SessionEvent::FrameHandled => SessionState::Open,
            SessionEvent::CloseFrame => SessionState::Closing,
            SessionEvent::ReceiveError => SessionState::Closing,
            SessionEvent::SendFailed => SessionState::Closing,
            _ => SessionState::Open,
        },
        SessionState::Closing => match e {
            SessionEvent::CleanedUp => SessionState::Closed,
            _ => SessionState::Closing,
        },
        SessionState::Closed => SessionState::Closed,
    }
}

/// Advance a session by one observed event.
pub fn session_step(s: SessionState, e: SessionEvent) -> (n: SessionState)
    ensures
        n == session_next(s, e),
{
    match s {
        SessionState::Connecting => match e {
            SessionEvent::HandshakeOk => SessionState::Open,
            SessionEvent::HandshakeFailed => SessionState::Closed,
            _ => SessionState::Connecting,
        },
        SessionState::Open => match e {
            SessionEvent::FrameHandled => SessionState::Open,
            SessionEvent::CloseFrame => SessionState::Closing,
            SessionEvent::ReceiveError => SessionState::Closing,
            SessionEvent::SendFailed => SessionState::Closing,
            _ => SessionState::Open,
        },
        SessionState::Closing => match e {
            SessionEvent::CleanedUp => SessionState::Closed,
            _ => SessionState::Closing,
        },
        SessionState::Closed => SessionState::Closed,
    }
}

/// Law: a closed session never reopens, whatever else is observed.
pub proof fn lemma_closed_stays_closed(e: SessionEvent)
    ensures
        session_next(SessionState::Closed, e) == SessionState::Closed,
{
}

/// Law: an open session leaves the open state only for a close frame, a
/// receive error or a send failure — a handled frame, malformed or not,
/// keeps it open.
pub proof fn lemma_open_until_failure(e: SessionEvent)
    ensures
        session_next(SessionState::Open, e) == SessionState::Open <==> !(e
            == SessionEvent::CloseFrame || e == SessionEvent::ReceiveError || e
            == SessionEvent::SendFailed),
{
}

} // verus!
