//! Small rules of the server's plumbing: framing of posted messages, the
//! retry rhythm of a pool's first connection, and the settling time of a
//! configuration change.

use vstd::prelude::*;

verus! {

/// How long to wait after a change of the configuration file before it is
/// read, so that a burst of changes is read once.
pub const RELOAD_SETTLE_MILLIS: u64 = 200;

/// Seconds between attempts to reach a data source after its pool is made.
pub const HEALTH_CHECK_INTERVAL_SECS: u64 = 5;

/// The value of the line feed byte.
pub const LINE_FEED: u8 = 10;

/// A posted message as it is handed to the protocol stream: ending in a line
/// feed, one appended when it does not already end in one.
pub open spec fn framed(body: Seq<u8>) -> Seq<u8> {
    if body.len() > 0 && body.last() == LINE_FEED {
        body
    } else {
        body.push(LINE_FEED)
    }
}

/// Frames a posted message for the line-based protocol stream.
pub fn frame_message(body: Vec<u8>) -> (r: Vec<u8>)
    ensures
        r@ == framed(body@),
{
    let mut bytes = body;
    let n = bytes.len();
    if n == 0 || bytes[n - 1] != LINE_FEED {
        bytes.push(LINE_FEED);
    }
    bytes
}

/// Framing ends a message in a line feed, and a framed message is left as it
/// is when framed again.
pub proof fn lemma_framing_idempotent(body: Seq<u8>)
    ensures
        framed(body).len() > 0,
        framed(body).last() == LINE_FEED,
        framed(framed(body)) == framed(body),
        body.len() <= framed(body).len() <= body.len() + 1,
        framed(body).take(body.len() as int) == body,
{
    assert(framed(body).take(body.len() as int) =~= body);
}

/// What to do after an attempt to reach a data source.
#[derive(Debug, Clone, Copy, PartialEq, Eq, Structural)]
pub enum HealthCheckStep {
    /// A connection was obtained: stop trying.
    Connected,
    /// No connection: try again after the interval.
    RetryAfterSeconds(u64),
}

/// The next step after an attempt to reach a data source.
pub fn health_check_step(connected: bool) -> (s: HealthCheckStep)
    ensures
        connected ==> s == HealthCheckStep::Connected,
        !connected ==> s == HealthCheckStep::RetryAfterSeconds(HEALTH_CHECK_INTERVAL_SECS),
{
    if connected {
        HealthCheckStep::Connected
    } else {
        HealthCheckStep::RetryAfterSeconds(HEALTH_CHECK_INTERVAL_SECS)
    }
}

} // verus!
