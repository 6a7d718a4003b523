//! The event broadcaster: a bounded, lossy fan-out channel that republishes
//! every newly created record to all live listeners. It keeps no history —
//! a listener only sees records published after it subscribed — and a slow
//! listener loses its oldest unread events once its buffer overflows; the
//! loss surfaces as an explicit lag signal, and history is recovered from
//! the store via the resume cursor, not from this channel.

use vstd::prelude::*;
use crate::player::Player;

verus! {

#[verifier::external_type_specification]
#[verifier::external_body]
#[verifier::reject_recursive_types(T)]
pub struct ExBroadcastSender<T>(tokio::sync::broadcast::Sender<T>);

#[verifier::external_type_specification]
#[verifier::external_body]
#[verifier::reject_recursive_types(T)]
pub struct ExBroadcastReceiver<T>(tokio::sync::broadcast::Receiver<T>);

/// Per-listener buffer capacity: deliberately small. A listener that falls
/// further behind than this loses its oldest unread events.
pub const BROADCAST_CAPACITY: usize = 2;

/// What one non-blocking poll of a live handle yields.
pub enum LiveEvent {
    /// The next buffered record.
    Player(Player),
    /// The listener lagged and this many events were dropped from its
    /// buffer. The feed continues after the gap; the loss is explicit.
    Lagged(u64),
    /// Nothing is buffered right now.
    Empty,
    /// Every sending half has been dropped; no further event will come.
    Closed,
}

/// Relies on tokio::sync::broadcast::Sender::new: creates the sending half
/// of a broadcast channel whose listeners each buffer `capacity` events.
/// It panics outside the admitted capacity range, so that range is required.
#[verifier::external_body]
fn new_broadcast_sender(capacity: usize) -> (r: tokio::sync::broadcast::Sender<Player>)
    requires
        0 < capacity <= usize::MAX / 2,
{
    tokio::sync::broadcast::Sender::new(capacity)
}

/// Relies on tokio::sync::broadcast::Sender::subscribe: registers a new
/// listener that will receive every record published after this call.
#[verifier::external_body]
fn sender_subscribe(tx: &tokio::sync::broadcast::Sender<Player>) -> (r: tokio::sync::broadcast::Receiver<Player>) {
    tx.subscribe()
}

/// Relies on tokio::sync::broadcast::Sender::send: hands the record to every
/// currently-registered listener's buffer without blocking. Its error only
/// reports that no listener exists, which the write path deliberately
/// ignores: publishing to nobody is a no-op, not a failure.
#[verifier::external_body]
fn sender_send(tx: &tokio::sync::broadcast::Sender<Player>, player: Player) {
    let _err = tx.send(player);
}

/// Relies on tokio::sync::broadcast::Sender::receiver_count: the number of
/// currently-registered listeners.
#[verifier::external_body]
fn sender_receiver_count(tx: &tokio::sync::broadcast::Sender<Player>) -> (r: usize) {
    tx.receiver_count()
}

/// Relies on tokio::sync::broadcast::Receiver::try_recv: one non-blocking
/// poll of a listener's buffer, mapped variant for variant.
#[verifier::external_body]
pub(crate) fn receiver_try_recv(rx: &mut tokio::sync::broadcast::Receiver<Player>) -> (r: LiveEvent) {
    match rx.try_recv() {
        Ok(p) => LiveEvent::Player(p),
        Err(tokio::sync::broadcast::error::TryRecvError::Empty) => LiveEvent::Empty,
        Err(tokio::sync::broadcast::error::TryRecvError::Closed) => LiveEvent::Closed,
        Err(tokio::sync::broadcast::error::TryRecvError::Lagged(n)) => LiveEvent::Lagged(n),
    }
}

/// The broadcaster. It owns only the sending half; listeners are registered
/// on demand and deregister themselves by dropping their handle.
pub struct InMemoryBroker {
    players: tokio::sync::broadcast::Sender<Player>,
}

impl Default for InMemoryBroker {
    fn default() -> Self {
        InMemoryBroker { players: new_broadcast_sender(BROADCAST_CAPACITY) }
    }
}

impl InMemoryBroker {
    /// Register a live listener. It receives every record published after
    /// this call and nothing from before; backlog comes from the store.
    pub fn subscribe_new_players(&self) -> tokio::sync::broadcast::Receiver<Player> {
        sender_subscribe(&self.players)
    }

    /// Publish a newly created record to every live listener. Never blocks
    /// the writer and never fails it, whatever the listeners' state.
    pub fn new_player(&self, player: Player) {
        sender_send(&self.players, player)
    }

    /// How many live listeners are currently registered.
    pub fn subscriber_count(&self) -> usize {
        sender_receiver_count(&self.players)
    }
}

} // verus!
