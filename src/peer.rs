//! Setting up a link with a peer: the handshake that agrees on initial
//! sequence numbers, the challenge that proves the peer's identity, and the
//! decisions of the manager that keeps one connection per peer.
use vstd::prelude::*;

use crate::config::AetherConfig;
use crate::util::jitter;

pub mod authentication;
pub mod handshake;

verus! {

/// The state of a connection to one peer.
#[derive(Debug, Clone, Copy, PartialEq, Eq, Structural)]
pub enum ConnectionKind {
    /// Waiting for the tracker to introduce the peer.
    Init,
    /// The handshake with the peer is running.
    Handshake,
    /// The link to the peer is up and authenticated.
    Connected,
    /// The last attempt failed; another follows after the retry delay.
    Failed,
}

/// What the manager does with an introduction from the tracker.
#[derive(Debug, Clone, Copy, PartialEq, Eq, Structural)]
pub enum RequestAction {
    /// An unknown peer: start a connection in `Init`, ask the tracker to
    /// introduce us in turn, and handle the introduction again.
    Introduce,
    /// A connection in `Init`: start the handshake.
    StartHandshake,
    /// A failed connection whose retry delay has passed: back to `Init`.
    Retry,
    /// Leave the connection as it is.
    Keep,
}

/// Decide on an introduction for a peer whose connection is in `state`
/// (`None` where there is none); `since_failure_ms` is the time since a
/// failure, and `retry_after_ms` the delay before a failed peer is retried.
pub fn on_request(state: Option<ConnectionKind>, since_failure_ms: u64, retry_after_ms: u64) -> (r:
    RequestAction)
    ensures
        state is None ==> r == RequestAction::Introduce,
        state == Some(ConnectionKind::Init) ==> r == RequestAction::StartHandshake,
        state == Some(ConnectionKind::Failed) ==> r == if since_failure_ms > retry_after_ms {
            RequestAction::Retry
        } else {
            RequestAction::Keep
        },
        state == Some(ConnectionKind::Handshake) || state == Some(ConnectionKind::Connected) ==> r
            == RequestAction::Keep,
{
    match state {
        None => RequestAction::Introduce,
        Some(ConnectionKind::Init) => RequestAction::StartHandshake,
        Some(ConnectionKind::Failed) => {
            if since_failure_ms > retry_after_ms {
                RequestAction::Retry
            } else {
                RequestAction::Keep
            }
        },
        Some(_) => RequestAction::Keep,
    }
}

/// The state after a connection attempt: connected only where the handshake,
/// the authentication and the key exchange all succeeded.
pub fn after_attempt(handshake_ok: bool, authenticated: bool, encrypted: bool) -> (r: ConnectionKind)
    ensures
        r == if handshake_ok && authenticated && encrypted {
            ConnectionKind::Connected
        } else {
            ConnectionKind::Failed
        },
{
    if handshake_ok && authenticated && encrypted {
        ConnectionKind::Connected
    } else {
        ConnectionKind::Failed
    }
}

/// Whether a connection is on its way: initialised or in its handshake.
pub fn is_connecting(state: Option<ConnectionKind>) -> (r: bool)
    ensures
        r == (state == Some(ConnectionKind::Init) || state == Some(ConnectionKind::Handshake)),
{
    match state {
        Some(ConnectionKind::Init) => true,
        Some(ConnectionKind::Handshake) => true,
        _ => false,
    }
}

/// The delay after which a failed peer, or an unanswered challenge, is given
/// up on: the retry delay plus a random jitter below `delta_time`, so that both
/// sides do not retry in lockstep.
pub fn retry_delay(config: &AetherConfig) -> (r: u64)
    ensures
        r >= config.handshake_retry_delay,
        config.delta_time == 0 ==> r == config.handshake_retry_delay,
        config.delta_time > 0 ==> r < config.handshake_retry_delay + config.delta_time,
{
    let j = jitter(config.delta_time);
    if config.handshake_retry_delay > u64::MAX - j {
        u64::MAX
    } else {
        config.handshake_retry_delay + j
    }
}

} // verus!
