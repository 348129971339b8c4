//! The text-input throttle: a process-wide guard over the most expensive
//! native call.  At most one text-input operation may be in flight — a second
//! caller is told the system is busy at once, never queued — and successive
//! operations keep a minimum spacing of 100 milliseconds.

use vstd::prelude::*;
use vstd::utf8::encode_utf8;
use crate::bytestr::lit;

verus! {

/// Minimum spacing between two text-input operations, in milliseconds.
pub const TEXT_INPUT_MIN_INTERVAL_MS: u64 = 100;

/// The throttle's answer to a caller that wants to start a text input.
#[derive(Clone, Copy, PartialEq, Eq, Structural, Debug)]
pub enum ThrottleDecision {
    /// Another text input is in flight: fail at once with a busy error.
    Busy,
    /// Too soon after the last one: wait this many milliseconds, take a
    /// fresh clock reading and ask again.
    Wait(u64),
    /// Clear to go; this operation now counts as in flight.
    Started,
}

/// The throttle's state: whether an operation is in flight, and when the last
/// one started, on the caller's monotonic millisecond clock.
pub struct TextInputThrottle {
    pub in_flight: bool,
    pub last_start_ms: Option<u64>,
}

impl TextInputThrottle {
    /// A fresh throttle: nothing in flight, nothing on record.
    pub fn new() -> (g: TextInputThrottle)
        ensures
            !g.in_flight,
            g.last_start_ms is None,
    {
        TextInputThrottle { in_flight: false, last_start_ms: Option::None }
    }

    /// Ask to start a text input at `now_ms`.  While another operation is
    /// in flight the answer is busy and nothing changes; too soon after
    /// the last one the answer says how long to wait and nothing changes;
    /// otherwise the operation starts and is on record.
    pub fn begin(&mut self, now_ms: u64) -> (d: ThrottleDecision)
        requires
            match old(self).last_start_ms {
                Option::Some(l) => now_ms >= l,
                Option::None => true,
            },
        ensures
            throttle_begin_rel(*old(self), now_ms, *final(self), d),
    {
        if self.in_flight {
            return ThrottleDecision::Busy;
        }
        match self.last_start_ms {
            Option::Some(l) => {
                let elapsed = now_ms - l;
                if elapsed < TEXT_INPUT_MIN_INTERVAL_MS {
                    return ThrottleDecision::Wait(TEXT_INPUT_MIN_INTERVAL_MS - elapsed);
                }
            },
            Option::None => {},
        }
        self.in_flight = true;
        self.last_start_ms = Option::Some(now_ms);
        ThrottleDecision::Started
    }

    /// The in-flight operation finished, well or badly; the next one may
    /// start, and the spacing clock keeps its record.
    pub fn finish(&mut self)
        ensures
            !final(self).in_flight,
            final(self).last_start_ms == old(self).last_start_ms,
    {
        self.in_flight = false;
    }
}

/// The error reported to a caller the busy answer turns away.
pub fn busy_message() -> (r: Vec<u8>)
    ensures
        r@ == encode_utf8("System busy, please try again"@),
{
    lit("System busy, please try again")
}

/// Law: while one text input is in flight, a second request gets the busy
/// answer at once, whatever the clock says, and nothing changes — two text
/// inputs never run at the same time.
pub proof fn lemma_throttle_excludes_concurrent(g: TextInputThrottle, now_ms: u64)
    requires
        g.in_flight,
    ensures
        ({
            let pre = g;
            forall|post: TextInputThrottle, d: ThrottleDecision|
                throttle_begin_rel(pre, now_ms, post, d) ==> d == ThrottleDecision::Busy && post == pre
        }),
{
}

/// The relation `begin` establishes between the state before and after.
pub open spec fn throttle_begin_rel(
    pre: TextInputThrottle,
    now_ms: u64,
    post: TextInputThrottle,
    d: ThrottleDecision,
) -> bool {
    if pre.in_flight {
        d == ThrottleDecision::Busy && post == pre
    } else {
        match pre.last_start_ms {
            Option::Some(l) => {
                if 0 <= now_ms - l < TEXT_INPUT_MIN_INTERVAL_MS {
                    d == ThrottleDecision::Wait((TEXT_INPUT_MIN_INTERVAL_MS - (now_ms - l)) as u64)
                        && post == pre
                } else {
                    d == ThrottleDecision::Started && post.in_flight && post.last_start_ms
                        == Option::Some(now_ms)
                }
            },
            Option::None => d == ThrottleDecision::Started && post.in_flight && post.last_start_ms
                == Option::Some(now_ms),
        }
    }
}

} // verus!
