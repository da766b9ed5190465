//! The outbound side of a subscriber's channel, as the registry holds it.
//!
//! The channel itself comes from tokio; only the sending half ever stands in
//! the verified code, behind the trusted items below.

use vstd::prelude::*;
use crate::msg::LogMessage;

verus! {

/// Relies on tokio::sync::mpsc::UnboundedSender being the sending half of an
/// unbounded queue: the registry holds one per subscriber and never looks
/// inside it.
#[verifier::external_type_specification]
#[verifier::external_body]
#[verifier::reject_recursive_types(T)]
pub struct ExUnboundedSender<T>(tokio::sync::mpsc::UnboundedSender<T>);

/// Relies on tokio::sync::mpsc::UnboundedSender::send: sending never blocks;
/// it fails exactly when the receiving half is gone, and the error hands the
/// message back. On success the message is enqueued behind everything sent
/// on this channel before it, and the receiver takes messages out in that
/// order. Whether it succeeds depends on the receiver's state, so nothing is
/// promised beyond the shape of the error.
#[verifier::external_body]
pub(crate) fn send_message(
    sender: &tokio::sync::mpsc::UnboundedSender<LogMessage>,
    msg: LogMessage,
) -> (r: Result<(), LogMessage>)
    ensures
        (r matches Err(m) ==> m@ == msg@),
{
    sender.send(msg).map_err(|e| e.0)
}

} // verus!
