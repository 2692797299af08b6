//! The three-way handshake, as decisions on received datagrams.
//!
//! Each side repeats an `Initiation` packet carrying its initial sequence
//! number and its own uid. On the first `Initiation` from the expected uid it
//! records the peer's sequence number; if that packet already acknowledges its
//! own number the link is established, otherwise it repeats its `Initiation`
//! with an acknowledgement of the peer's number until the peer acknowledges
//! in turn. Packets from any other uid are ignored.
use vstd::prelude::*;

use crate::acknowledgement::Acknowledgement;
use crate::config::HandshakeConfig;
use crate::packet::{decode, encode, well_framed, PType, Packet, PacketFlags, PacketModel};
use crate::util::{random_below, same_bytes};

verus! {

/// Initial sequence numbers are drawn below this bound.
pub const INITIAL_SEQ_BOUND: u64 = 0x1_0000;

/// Where a handshake stands after a datagram.
#[derive(Debug, Clone, Copy, PartialEq, Eq, Structural)]
pub enum HandshakeStep {
    /// Keep sending [`Handshake::outgoing`] and listening.
    Continue,
    /// Both sides know each other's initial sequence number.
    Established { send_seq: u32, recv_seq: u32 },
}

/// The state of one side of a handshake.
pub struct Handshake {
    seq: u32,
    my_uid: Vec<u8>,
    peer_uid: Vec<u8>,
    recv_seq: Option<u32>,
}

/// Whether a received packet comes from the expected peer.
pub open spec fn from_peer(p: PacketModel, peer_uid: Seq<u8>) -> bool {
    p.payload == peer_uid
}

/// Whether a received packet acknowledges our initial sequence number.
pub open spec fn acknowledges(p: PacketModel, seq: u32) -> bool {
    p.flags.ack && p.ack_begin == seq
}

/// A copy of a byte string.
fn copy_bytes(a: &Vec<u8>) -> (r: Vec<u8>)
    ensures
        r@ == a@,
{
    let mut r: Vec<u8> = Vec::new();
    let mut i: usize = 0;
    while i < a.len()
        invariant
            0 <= i <= a@.len(),
            r@ == a@.subrange(0, i as int),
        decreases a@.len() - i,
    {
        r.push(a[i]);
        i += 1;
        assert(r@ =~= a@.subrange(0, i as int));
    }
    assert(a@.subrange(0, a@.len() as int) =~= a@);
    r
}

impl Handshake {
    /// Our initial sequence number.
    pub closed spec fn seq(&self) -> u32 {
        self.seq
    }

    /// Our own uid, as bytes.
    pub closed spec fn my_uid(&self) -> Seq<u8> {
        self.my_uid@
    }

    /// The uid expected from the peer, as bytes.
    pub closed spec fn peer_uid(&self) -> Seq<u8> {
        self.peer_uid@
    }

    /// The peer's initial sequence number, once its `Initiation` has arrived.
    pub closed spec fn recv_seq(&self) -> Option<u32> {
        self.recv_seq
    }

    /// The packet to send now: our `Initiation` with our uid, acknowledging the
    /// peer's sequence number once it is known.
    pub open spec fn outgoing_model(&self) -> PacketModel {
        match self.recv_seq() {
            None => PacketModel {
                payload: self.my_uid(),
                ..Packet::new_spec(PType::Initiation, self.seq())
            },
            Some(peer) => PacketModel {
                flags: PacketFlags { p_type: PType::Initiation, ack: true, enc: false },
                ack_begin: peer,
                payload: self.my_uid(),
                ..Packet::new_spec(PType::Initiation, self.seq())
            },
        }
    }

    /// A handshake with the given initial sequence number.
    pub fn new(seq: u32, my_uid: Vec<u8>, peer_uid: Vec<u8>) -> (r: Handshake)
        ensures
            r.seq() == seq,
            r.my_uid() == my_uid@,
            r.peer_uid() == peer_uid@,
            r.recv_seq() is None,
    {
        Handshake { seq, my_uid, peer_uid, recv_seq: None }
    }

    /// A handshake with an initial sequence number drawn uniformly below 2^16.
    pub fn start(my_uid: Vec<u8>, peer_uid: Vec<u8>) -> (r: Handshake)
        ensures
            r.seq() < INITIAL_SEQ_BOUND,
            r.my_uid() == my_uid@,
            r.peer_uid() == peer_uid@,
            r.recv_seq() is None,
    {
        let seq = random_below(INITIAL_SEQ_BOUND) as u32;
        Handshake::new(seq, my_uid, peer_uid)
    }

    /// The datagram to send now: our `Initiation` with our uid, acknowledging
    /// the peer's sequence number once it is known.
    pub fn outgoing(&self) -> (r: Vec<u8>)
        ensures
            r@ == encode(self.outgoing_model()),
    {
        let mut packet = Packet::new(PType::Initiation, self.seq);
        packet.append_payload(copy_bytes(&self.my_uid));
        match self.recv_seq {
            None => {},
            Some(peer) => {
                packet.add_ack(
                    Acknowledgement { ack_begin: peer, ack_end: 0, miss_count: 0, miss: Vec::new() },
                );
            },
        }
        packet.compile()
    }

    /// Take in a datagram received during the handshake.
    pub fn on_datagram(&mut self, bytes: &Vec<u8>) -> (r: HandshakeStep)
        ensures
            final(self).seq() == old(self).seq(),
            final(self).my_uid() == old(self).my_uid(),
            final(self).peer_uid() == old(self).peer_uid(),
            !well_framed(bytes@) || !from_peer(decode(bytes@), old(self).peer_uid()) ==> {
                &&& r == HandshakeStep::Continue
                &&& final(self).recv_seq() == old(self).recv_seq()
            },
            well_framed(bytes@) && from_peer(decode(bytes@), old(self).peer_uid()) ==> {
                let p = decode(bytes@);
                match old(self).recv_seq() {
                    None => {
                        &&& final(self).recv_seq() == Some(p.sequence)
                        &&& r == if acknowledges(p, old(self).seq()) {
                            HandshakeStep::Established {
                                send_seq: old(self).seq(),
                                recv_seq: p.sequence,
                            }
                        } else {
                            HandshakeStep::Continue
                        }
                    },
                    Some(peer) => {
                        &&& final(self).recv_seq() == Some(peer)
                        &&& r == if p.sequence == peer && acknowledges(p, old(self).seq()) {
                            HandshakeStep::Established { send_seq: old(self).seq(), recv_seq: peer }
                        } else {
                            HandshakeStep::Continue
                        }
                    },
                }
            },
    {
        let p = match Packet::parse(bytes) {
            Ok(p) => p,
            Err(_) => {
                return HandshakeStep::Continue;
            },
        };
        if !same_bytes(&p.payload, &self.peer_uid) {
            return HandshakeStep::Continue;
        }
        let acked = p.flags.ack && p.ack.ack_begin == self.seq;
        match self.recv_seq {
            None => {
                self.recv_seq = Some(p.sequence);
                if acked {
                    HandshakeStep::Established { send_seq: self.seq, recv_seq: p.sequence }
                } else {
                    HandshakeStep::Continue
                }
            },
            Some(peer) => {
                if p.sequence == peer && acked {
                    HandshakeStep::Established { send_seq: self.seq, recv_seq: peer }
                } else {
                    HandshakeStep::Continue
                }
            },
        }
    }

    /// Whether the handshake's deadline has passed.
    pub fn timed_out(&self, elapsed_ms: u64, config: &HandshakeConfig) -> (r: bool)
        ensures
            r == (elapsed_ms > config.handshake_timeout),
    {
        elapsed_ms > config.handshake_timeout
    }
}

/// What one side records from the other's `Initiation` is the other's initial
/// sequence number: where `us` expects the uid that `peer` sends, the peer's
/// datagram is accepted, and once both have recorded each other, each side
/// establishes with its own number to send from and the peer's to receive from.
pub proof fn lemma_handshake_agrees(us: Handshake, peer: Handshake)
    requires
        us.peer_uid() == peer.my_uid(),
    ensures
        ({
            let p = decode(encode(peer.outgoing_model()));
            &&& well_framed(encode(peer.outgoing_model()))
            &&& from_peer(p, us.peer_uid())
            &&& p.sequence == peer.seq()
            &&& (peer.recv_seq() == Some(us.seq()) ==> acknowledges(p, us.seq()))
        }),
{
    crate::packet::lemma_codec_round_trip(peer.outgoing_model());
}

} // verus!
