use aether_lib::config::{AetherConfig, Config, HandshakeConfig, LinkConfig};
use aether_lib::tracker::{TrackerPacket, CONNECTION_REQUEST, POLL_REQUEST};

#[test]
fn default_configuration_values() {
    let c = Config::default();
    assert_eq!(c.aether, AetherConfig::default());
    assert_eq!(c.aether.handshake_retry_delay, 1_500);
    assert_eq!(c.aether.delta_time, 1_000);
    assert_eq!(c.handshake, HandshakeConfig { peer_poll_time: 100, handshake_timeout: 2_500 });
    assert_eq!(
        c.link,
        LinkConfig {
            window_size: 20,
            ack_wait_time: 1_000,
            poll_time_us: 100,
            timeout: 10_000,
            retry_delay: 100,
            ack_only_time: 100,
            max_retries: 10,
        }
    );
    assert!(c.handshake.handshake_timeout >= c.handshake.peer_poll_time);
}

#[test]
fn tracker_requests() {
    let r = TrackerPacket::connection_request("me".to_string(), "you".to_string());
    assert_eq!(r.packet_type, CONNECTION_REQUEST);
    assert_eq!((r.username.as_str(), r.peer_username.as_str()), ("me", "you"));
    assert!(r.req);
    assert_eq!(r.identity_number, 1);
    let p = TrackerPacket::poll_request("me".to_string());
    assert_eq!(p.packet_type, POLL_REQUEST);
    assert!(p.peer_username.is_empty());
    assert!(p.connections.is_empty());
    assert_eq!(p, TrackerPacket { username: "me".to_string(), req: true, packet_type: 3, ..Default::default() });
}
