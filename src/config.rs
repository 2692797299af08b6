//! Configuration of the library. Durations are in milliseconds unless the
//! name ends in `_us` (microseconds).
use vstd::prelude::*;

verus! {

/// All configuration options.
#[derive(Clone, Copy, Debug, PartialEq, Eq, Structural)]
pub struct Config {
    /// Options of the connection manager.
    pub aether: AetherConfig,
    /// Options of the handshake.
    pub handshake: HandshakeConfig,
    /// Options of a link.
    pub link: LinkConfig,
}

/// Options of the connection manager.
#[derive(Clone, Copy, Debug, PartialEq, Eq, Structural)]
pub struct AetherConfig {
    /// How long to wait for the tracker to answer.
    pub server_retry_delay: u64,
    /// How often to poll the tracker for new connections.
    pub server_poll_time: u64,
    /// Base delay between handshake attempts; also the base time to wait for
    /// the peer's answer during authentication.
    pub handshake_retry_delay: u64,
    /// How often to look for a change of a connection's state.
    pub connection_check_delay: u64,
    /// Upper bound of the random jitter added to retry delays.
    pub delta_time: u64,
    /// Poll period of lists shared between workers, in microseconds.
    pub poll_time_us: u64,
}

/// Options of the handshake.
#[derive(Clone, Copy, Debug, PartialEq, Eq, Structural)]
pub struct HandshakeConfig {
    /// Time between two attempts, and the wait for an answer to each.
    pub peer_poll_time: u64,
    /// Deadline of the whole handshake; not below `peer_poll_time`.
    pub handshake_timeout: u64,
}

/// Options of a link.
#[derive(Clone, Copy, Debug, PartialEq, Eq, Structural)]
pub struct LinkConfig {
    /// Packets per window.
    pub window_size: u8,
    /// Quiescence grace when waiting for the link to empty.
    pub ack_wait_time: u64,
    /// Poll period between workers, in microseconds.
    pub poll_time_us: u64,
    /// Inactivity after which the link is declared broken.
    pub timeout: u64,
    /// Wait between two passes over an unconfirmed window.
    pub retry_delay: u64,
    /// Keepalive period when nothing is queued.
    pub ack_only_time: u64,
    /// Consecutive passes over a window without progress before the link is torn down.
    pub max_retries: i16,
}

/// The default options of the connection manager.
pub open spec fn default_aether() -> AetherConfig {
    AetherConfig {
        server_retry_delay: 1_000,
        server_poll_time: 1_000,
        handshake_retry_delay: 1_500,
        connection_check_delay: 1_000,
        delta_time: 1000,
        poll_time_us: 100,
    }
}

/// The default options of the handshake.
pub open spec fn default_handshake() -> HandshakeConfig {
    HandshakeConfig { peer_poll_time: 100, handshake_timeout: 2_500 }
}

/// The default options of a link.
pub open spec fn default_link() -> LinkConfig {
    LinkConfig {
        window_size: 20,
        ack_wait_time: 1_000,
        poll_time_us: 100,
        timeout: 10_000,
        retry_delay: 100,
        ack_only_time: 100,
        max_retries: 10,
    }
}

impl Default for AetherConfig {
    fn default() -> (r: Self)
        ensures
            r == default_aether(),
    {
        AetherConfig {
            server_retry_delay: 1_000,
            server_poll_time: 1_000,
            handshake_retry_delay: 1_500,
            connection_check_delay: 1_000,
            delta_time: 1000,
            poll_time_us: 100,
        }
    }
}

impl Default for HandshakeConfig {
    fn default() -> (r: Self)
        ensures
            r == default_handshake(),
    {
        HandshakeConfig { peer_poll_time: 100, handshake_timeout: 2_500 }
    }
}

impl Default for LinkConfig {
    fn default() -> (r: Self)
        ensures
            r == default_link(),
    {
        LinkConfig {
            window_size: 20,
            ack_wait_time: 1_000,
            poll_time_us: 100,
            timeout: 10_000,
            retry_delay: 100,
            ack_only_time: 100,
            max_retries: 10,
        }
    }
}

impl Default for Config {
    fn default() -> (r: Self)
        ensures
            r == (Config {
                aether: default_aether(),
                handshake: default_handshake(),
                link: default_link(),
            }),
    {
        Config {
            aether: AetherConfig::default(),
            handshake: HandshakeConfig::default(),
            link: LinkConfig::default(),
        }
    }
}

} // verus!
