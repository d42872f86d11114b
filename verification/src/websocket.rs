//! # WebSocket feed decisions
//!
//! A broadcast task reads the sensors every `broadcast_interval_ms`
//! milliseconds and sends the JSON snapshot to every connected client through
//! a broadcast channel of [`BROADCAST_CAPACITY`] messages. Each client's task
//! forwards what it receives:
//!
//! | Received            | Action                                  |
//! |---------------------|-----------------------------------------|
//! | a message           | forward it; disconnect if sending fails |
//! | "lagged" (too slow) | skip the lost messages and go on        |
//! | "closed"            | disconnect                              |
//!
//! The broadcast task looks at the configured interval on every tick, so a
//! reloaded config changes the pace from the next tick on.

use vstd::prelude::*;

verus! {

/// Messages the broadcast channel holds before a slow client lags.
pub const BROADCAST_CAPACITY: usize = 100;

/// What a client's receiver got from the broadcast channel.
#[derive(Debug, Clone, Copy, PartialEq, Eq, Structural)]
pub enum Received {
    /// A snapshot to forward.
    Message,
    /// The client fell behind and messages were dropped.
    Lagged,
    /// The channel closed.
    Closed,
}

/// What a client's task does next.
#[derive(Debug, Clone, Copy, PartialEq, Eq, Structural)]
pub enum SocketAction {
    /// Send the message to the client.
    Forward,
    /// Keep waiting for the next message.
    Skip,
    /// Stop serving this client.
    Disconnect,
}

/// The action for what the receiver got.
pub fn on_receive(r: Received) -> (a: SocketAction)
    ensures
        a == match r {
            Received::Message => SocketAction::Forward,
            Received::Lagged => SocketAction::Skip,
            Received::Closed => SocketAction::Disconnect,
        },
{
    match r {
        Received::Message => SocketAction::Forward,
        Received::Lagged => SocketAction::Skip,
        Received::Closed => SocketAction::Disconnect,
    }
}

/// Whether the client stays connected after forwarding: only if the send succeeded.
pub fn stays_connected(sent: bool) -> (b: bool)
    ensures
        b == sent,
{
    sent
}

/// The timer period for a configured interval: the interval itself, or 1 ms
/// for an interval of 0, which a timer cannot run with.
pub open spec fn period_for(configured_ms: u64) -> u64 {
    if configured_ms == 0 {
        1
    } else {
        configured_ms
    }
}

/// The broadcast timer's period in milliseconds (see [`period_for`]).
pub fn broadcast_period_ms(configured_ms: u64) -> (p: u64)
    ensures
        p == period_for(configured_ms),
        p > 0,
{
    if configured_ms == 0 {
        1
    } else {
        configured_ms
    }
}

/// After reading the config on a tick: the new period when the configured
/// interval asks for another one than the timer runs with, else `None`.
pub fn ticker_update(current_period_ms: u64, configured_ms: u64) -> (r: Option<u64>)
    ensures
        r == (if period_for(configured_ms) == current_period_ms {
            None
        } else {
            Some(period_for(configured_ms))
        }),
{
    let p = broadcast_period_ms(configured_ms);
    if p == current_period_ms {
        None
    } else {
        Some(p)
    }
}

} // verus!
