//! The decisions of a link's workers: which packets need acknowledgement,
//! how received datagrams are ordered ([`receivethread`]) and how the sender
//! paces and repeats its window ([`sendthread`]).
use vstd::prelude::*;

use crate::packet::{PType, Packet};

pub mod receivethread;
pub mod sendthread;

verus! {

/// Whether packets of this kind are acknowledged and repeated until confirmed.
pub open spec fn kind_needs_ack(t: PType) -> bool {
    t == PType::Data || t == PType::KeyExchange
}

/// Whether a packet needs to be acknowledged: data and key-exchange packets do.
pub fn needs_ack(packet: &Packet) -> (r: bool)
    ensures
        r == kind_needs_ack(packet.flags.p_type),
{
    match packet.flags.p_type {
        PType::Data => true,
        PType::KeyExchange => true,
        PType::AckOnly => false,
        _ => false,
    }
}

/// Whether a delivered packet carries bytes for the user: data packets do;
/// key-exchange and handshake packets are consumed by the link itself.
pub fn is_user_data(packet: &Packet) -> (r: bool)
    ensures
        r == (packet.flags.p_type == PType::Data),
{
    match packet.flags.p_type {
        PType::Data => true,
        _ => false,
    }
}

} // verus!
