//! Messages exchanged with the rendezvous tracker. Their JSON encoding lives
//! with the program that talks to the tracker.
use vstd::prelude::*;

verus! {

/// The kind of a request that asks the tracker to introduce two users.
pub const CONNECTION_REQUEST: u8 = 2;

/// The kind of a request that polls the tracker for introductions.
pub const POLL_REQUEST: u8 = 3;

/// An introduction: a user who wants to connect, and where to reach them.
#[derive(Debug, Clone, PartialEq, Eq, Default)]
pub struct ConnectionRequest {
    pub identity_number: u32,
    pub username: String,
    pub port: u16,
    pub ip: [u8; 4],
}

/// A message to or from the tracker.
#[derive(Debug, Clone, PartialEq, Eq, Default)]
pub struct TrackerPacket {
    pub identity_number: u32,
    pub username: String,
    pub peer_username: String,
    pub req: bool,
    pub packet_type: u8,
    pub port: u16,
    pub ip: [u8; 4],
    pub connections: Vec<ConnectionRequest>,
}

impl TrackerPacket {
    /// A request from `username` to be introduced to `peer_username`.
    pub fn connection_request(username: String, peer_username: String) -> (r: TrackerPacket)
        ensures
            r.username == username,
            r.peer_username == peer_username,
            r.identity_number == 1,
            r.packet_type == CONNECTION_REQUEST,
            r.req,
            r.port == 0,
            r.ip == [0u8, 0, 0, 0],
            r.connections@.len() == 0,
    {
        TrackerPacket {
            identity_number: 1,
            username,
            peer_username,
            req: true,
            packet_type: CONNECTION_REQUEST,
            port: 0,
            ip: [0, 0, 0, 0],
            connections: Vec::new(),
        }
    }

    /// A poll by `username` for introductions waiting at the tracker.
    pub fn poll_request(username: String) -> (r: TrackerPacket)
        ensures
            r.username == username,
            r.peer_username@.len() == 0,
            r.identity_number == 0,
            r.packet_type == POLL_REQUEST,
            r.req,
            r.port == 0,
            r.ip == [0u8, 0, 0, 0],
            r.connections@.len() == 0,
    {
        TrackerPacket {
            identity_number: 0,
            username,
            peer_username: String::new(),
            req: true,
            packet_type: POLL_REQUEST,
            port: 0,
            ip: [0, 0, 0, 0],
            connections: Vec::new(),
        }
    }
}

} // verus!
