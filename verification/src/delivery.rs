//! Delivery to the other server: when a report or a notice is sent again, and when a
//! build whose report could not be delivered is recorded as failed.

use vstd::prelude::*;

verus! {

/// What follows an attempt to send to the other server.
#[derive(Clone, Copy, Debug, PartialEq, Eq, Structural)]
pub enum SendStep {
    /// Nothing more is sent.
    Done,
    /// Send once more after waiting this many seconds.
    RetryAfter { secs: u64 },
    /// Nothing more is sent, and the build joins the failed history.
    RecordFailed,
}

/// After an attempt to send a build's report: a first attempt that failed is repeated
/// after 10 seconds; after the repeated attempt, whatever its outcome, the build is
/// recorded as failed; a first attempt that succeeded ends the delivery.
pub fn after_report_send(first_attempt: bool, delivered: bool) -> (r: SendStep)
    ensures
        first_attempt && delivered ==> r == SendStep::Done,
        first_attempt && !delivered ==> r == (SendStep::RetryAfter { secs: 10 }),
        !first_attempt ==> r == SendStep::RecordFailed,
{
    if !first_attempt {
        SendStep::RecordFailed
    } else if delivered {
        SendStep::Done
    } else {
        SendStep::RetryAfter { secs: 10 }
    }
}

/// After an attempt to send a notice (build started, queue ended): a first attempt that
/// failed is repeated after 5 seconds; nothing more is sent after that.
pub fn after_notice_send(first_attempt: bool, delivered: bool) -> (r: SendStep)
    ensures
        first_attempt && !delivered ==> r == (SendStep::RetryAfter { secs: 5 }),
        !(first_attempt && !delivered) ==> r == SendStep::Done,
{
    if first_attempt && !delivered {
        SendStep::RetryAfter { secs: 5 }
    } else {
        SendStep::Done
    }
}

} // verus!
