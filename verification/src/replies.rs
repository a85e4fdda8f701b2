//! The producer end of the reply queue.
//!
//! A handler cannot publish; it hands its reply to the control loop through
//! an unbounded channel, which the loop drains in arrival order. The
//! channel is tokio's. What this module adds is the failure that a handler
//! must be ready for: a loop that is gone.

use crate::state::Msg;
use tokio::sync::mpsc::UnboundedSender;
use vstd::prelude::*;

verus! {

/// The producer handle of tokio's unbounded channel, carried through as it
/// is.
#[verifier::external_type_specification]
#[verifier::external_body]
#[verifier::reject_recursive_types(T)]
pub struct ExUnboundedSender<T>(UnboundedSender<T>);

/// A reply could not be queued, because the consumer of the queue is gone.
/// The reply is handed back.
#[derive(Debug)]
pub struct ChannelSendFailure {
    pub reply: Msg,
}

/// Calls `UnboundedSender::send`. Trusted: where the call fails, the value
/// that it hands back in its error is the one it was given. Whether it
/// fails depends on the receiver, so nothing is said of that.
#[verifier::external_body]
fn send(sender: &UnboundedSender<Msg>, message: Msg) -> (sent: Result<(), Msg>)
    ensures
        sent matches Err(back) ==> back == message,
{
    sender.send(message).map_err(|e| e.0)
}

/// What the outcome of a send means for the handler: a sent reply is
/// queued, and a reply that came back is a failure that carries it.
pub fn send_outcome(sent: Result<(), Msg>) -> (queued: Result<(), ChannelSendFailure>)
    ensures
        queued is Ok <==> sent is Ok,
        sent matches Err(back) ==> queued matches Err(failure) && failure.reply == back,
{
    match sent {
        Ok(()) => Ok(()),
        Err(back) => Err(ChannelSendFailure { reply: back }),
    }
}

/// Queues `reply` for the control loop, without blocking. Where the loop no
/// longer listens, the reply comes back in the failure, to be reported and
/// dropped.
pub fn enqueue_reply(
    sender: &UnboundedSender<Msg>,
    reply: Msg,
) -> (queued: Result<(), ChannelSendFailure>)
    ensures
        queued matches Err(failure) ==> failure.reply == reply,
{
    send_outcome(send(sender, reply))
}

} // verus!
