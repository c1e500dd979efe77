//! The global event fan-out: one broadcast channel shared by every
//! connection. Each connection clones the one sender and owns its own
//! subscribed receiver; events published on the sender reach every
//! receiver subscribed at the time, in publish order per channel.
//!
//! The channel's state is shared across tasks, so nothing is promised
//! here about what a receive yields: the connection logic takes whatever
//! came back as an argument and is verified for every value of it. A
//! receiver that fell behind observes a distinguishable lag, which the
//! caller treats as fatal by design, rather than running on with silently
//! missing events.
use vstd::prelude::*;

use crate::handler::GlobalHandlerOperation;

verus! {

/// The broadcast channel's sending half, declared so a connection can
/// hold its handle; shared by every connection.
#[verifier::external_type_specification]
#[verifier::external_body]
#[verifier::reject_recursive_types(T)]
pub struct ExSender<T>(tokio::sync::broadcast::Sender<T>);

/// The broadcast channel's receiving half, declared so a connection can
/// hold its own subscription.
#[verifier::external_type_specification]
#[verifier::external_body]
#[verifier::reject_recursive_types(T)]
pub struct ExReceiver<T>(tokio::sync::broadcast::Receiver<T>);

/// What one non-blocking receive attempt yielded.
pub enum GlobalRecvOutcome {
    /// The oldest event not yet seen by this receiver.
    Received(GlobalHandlerOperation),
    /// Nothing new.
    Empty,
    /// This receiver fell behind and missed this many events.
    Lagged(u64),
    /// Every sender is gone.
    Closed,
}

/// Why draining the global event channel failed; both causes are fatal
/// for the connection by design.
#[derive(Clone, Copy, Debug, PartialEq, Eq)]
pub enum GlobalRecvError {
    /// The receiver missed this many events: the connection would run on
    /// with an inconsistent picture of the world, which is worse than
    /// ending it.
    Lagged(u64),
    /// Every sender is gone; no more events can ever arrive.
    Closed,
}

/// Relies on tokio's broadcast Sender::subscribe: a fresh receiver that
/// will observe every event published after this call, in publish order.
#[verifier::external_body]
pub fn subscribe_global(tx: &tokio::sync::broadcast::Sender<GlobalHandlerOperation>) -> (r:
    tokio::sync::broadcast::Receiver<GlobalHandlerOperation>) {
    tx.subscribe()
}

/// Relies on tokio's broadcast Sender::send: publishes one event to every
/// receiver subscribed now; when there is none, the event comes back
/// unchanged instead, which the caller treats as harmless.
#[verifier::external_body]
pub fn send_global(
    tx: &tokio::sync::broadcast::Sender<GlobalHandlerOperation>,
    op: GlobalHandlerOperation,
) -> (r: Result<usize, GlobalHandlerOperation>)
    ensures
        r matches Err(v) ==> v == op,
{
    match tx.send(op) {
        Ok(n) => Ok(n),
        Err(tokio::sync::broadcast::error::SendError(v)) => Err(v),
    }
}

/// Relies on tokio's broadcast Receiver::try_recv: the oldest unseen
/// event, nothing, a lag report, or the news that all senders are gone.
/// Which of these comes back depends on the other connections, so the
/// caller handles every outcome.
#[verifier::external_body]
pub fn try_recv_global(rx: &mut tokio::sync::broadcast::Receiver<GlobalHandlerOperation>) -> (r:
    GlobalRecvOutcome) {
    match rx.try_recv() {
        Ok(v) => GlobalRecvOutcome::Received(v),
        Err(tokio::sync::broadcast::error::TryRecvError::Empty) => GlobalRecvOutcome::Empty,
        Err(tokio::sync::broadcast::error::TryRecvError::Lagged(n)) => GlobalRecvOutcome::Lagged(n),
        Err(tokio::sync::broadcast::error::TryRecvError::Closed) => GlobalRecvOutcome::Closed,
    }
}

} // verus!
