//! The receive path: classify a datagram, update both acknowledgement sets and
//! release data in sequence order.
use std::collections::HashMap;
use std::collections::VecDeque;
use vstd::prelude::*;

use crate::acknowledgement::{
    acknowledged_by, confirmed, records, Acknowledgement, AcknowledgementCheck, AcknowledgementList,
};
use crate::link::{kind_needs_ack, needs_ack};
use crate::packet::{decode, well_framed, PType, Packet, PacketModel};

verus! {

broadcast use vstd::std_specs::hash::group_hash_axioms;

/// Holds packets that arrived ahead of their turn and releases them in
/// sequence order.
pub struct OrderList {
    /// The last sequence number released.
    seq: u32,
    /// Packets waiting for their predecessors, by sequence number.
    list: HashMap<u32, Packet>,
}

/// The sequence numbers strictly above `lo` and up to `hi`.
pub open spec fn between(lo: int, hi: int) -> Set<u32> {
    Set::new(|k: u32| lo < k <= hi)
}

/// How offering `p` to the buffer `before` yields `after` and the released run `out`.
///
/// A packet at or below the last released number changes nothing. The next
/// expected packet is released together with the stored packets that follow it
/// without a gap. A later packet is stored.
pub open spec fn delivers(before: OrderList, p: PacketModel, after: OrderList, out: Seq<Packet>) -> bool {
    &&& after.wf()
    &&& if p.sequence <= before.last() {
        out.len() == 0 && after.last() == before.last() && after.pending() == before.pending()
    } else if p.sequence == before.last() + 1 {
        &&& out.len() >= 1
        &&& out[0]@ == p
        &&& after.last() == before.last() + out.len()
        &&& forall|k: u32|
            before.last() + 1 < k <= after.last() ==> #[trigger] before.pending().contains_key(k)
        &&& forall|i: int|
            #![trigger out[i]]
            1 <= i < out.len() ==> out[i] == before.pending()[(before.last() + 1 + i) as u32]
        &&& after.last() < u32::MAX ==> !before.pending().contains_key((after.last() + 1) as u32)
        &&& after.pending() == before.pending().remove_keys(
            between(before.last() + 1, after.last() as int),
        )
    } else {
        &&& out.len() == 0
        &&& after.last() == before.last()
        &&& after.pending().dom() == before.pending().dom().insert(p.sequence)
        &&& after.pending()[p.sequence]@ == p
        &&& forall|k: u32| k != p.sequence && #[trigger] before.pending().contains_key(k)
            ==> after.pending()[k] == before.pending()[k]
    }
}

impl OrderList {
    /// The last sequence number released.
    pub closed spec fn last(&self) -> u32 {
        self.seq
    }

    /// The packets waiting, by sequence number.
    pub closed spec fn pending(&self) -> Map<u32, Packet> {
        self.list@
    }

    /// The internal invariant: every waiting packet is stored under its own
    /// sequence number, beyond the next expected one.
    pub closed spec fn wf(&self) -> bool {
        forall|k: u32| #[trigger]
            self.list@.contains_key(k) ==> k > self.seq + 1 && self.list@[k].sequence == k
    }

    /// A buffer that has released everything up to `seq`.
    pub fn new(seq: u32) -> (r: OrderList)
        ensures
            r.wf(),
            r.last() == seq,
            r.pending() == Map::<u32, Packet>::empty(),
    {
        OrderList { seq, list: HashMap::new() }
    }

    /// Offer a packet. The next expected packet comes back with the stored run
    /// that follows it; `Err(0)` marks a packet already released, `Err(1)` one
    /// stored for later.
    pub fn insert(&mut self, packet: Packet) -> (r: Result<VecDeque<Packet>, u8>)
        requires
            old(self).wf(),
        ensures
            delivers(
                *old(self),
                packet@,
                *final(self),
                match r {
                    Ok(run) => run@,
                    Err(_) => Seq::empty(),
                },
            ),
            r == Err::<VecDeque<Packet>, u8>(0) <==> packet.sequence <= old(self).last(),
            r == Err::<VecDeque<Packet>, u8>(1) <==> packet.sequence > old(self).last() + 1,
    {
        if packet.sequence as u64 > self.seq as u64 + 1 {
            let ghost before = self.list@;
            let s = packet.sequence;
            self.list.insert(s, packet);
            assert(self.list@.dom() =~= before.dom().insert(s));
            Err(1)
        } else if packet.sequence as u64 == self.seq as u64 + 1 {
            let ghost start = self.seq;
            let ghost orig = self.list@;
            let ghost first = packet;
            let mut result: VecDeque<Packet> = VecDeque::new();
            result.push_back(packet);
            self.seq = self.seq + 1;
            assert(self.list@.remove_keys(between(start + 1, self.seq as int)) =~= self.list@);
            loop
                invariant
                    start < self.seq,
                    result@.len() == self.seq - start,
                    result@[0] == first,
                    forall|k: u32| start + 1 < k <= self.seq ==> #[trigger] orig.contains_key(k),
                    forall|i: int|
                        #![trigger result@[i]]
                        1 <= i < result@.len() ==> result@[i] == orig[(start + 1 + i) as u32],
                    self.list@ == orig.remove_keys(between(start + 1, self.seq as int)),
                    forall|k: u32| #[trigger]
                        self.list@.contains_key(k) ==> k > self.seq && self.list@[k].sequence == k,
                ensures
                    self.seq < u32::MAX ==> !self.list@.contains_key((self.seq + 1) as u32),
                    forall|k: u32| #[trigger]
                        self.list@.contains_key(k) ==> k > self.seq && self.list@[k].sequence == k,
                    result@.len() == self.seq - start,
                    result@[0] == first,
                    forall|k: u32| start + 1 < k <= self.seq ==> #[trigger] orig.contains_key(k),
                    forall|i: int|
                        #![trigger result@[i]]
                        1 <= i < result@.len() ==> result@[i] == orig[(start + 1 + i) as u32],
                    self.list@ == orig.remove_keys(between(start + 1, self.seq as int)),
                decreases u32::MAX - self.seq,
            {
                if self.seq == u32::MAX {
                    break;
                }
                let next = self.seq + 1;
                match self.list.remove(&next) {
                    Some(n_packet) => {
                        assert(orig.contains_key(next) && n_packet == orig[next]);
                        self.seq = next;
                        result.push_back(n_packet);
                        assert(self.list@ =~= orig.remove_keys(
                            between(start + 1, self.seq as int),
                        ));
                    },
                    None => {
                        break;
                    },
                }
            }
            Ok(result)
        } else {
            Err(0)
        }
    }
}

/// Handle one datagram from the peer and return the packets it releases, in
/// sequence order.
///
/// A datagram that does not parse is dropped and changes nothing. Otherwise
/// the summary it carries is merged into `ack_check`, a packet that needs
/// acknowledgement is recorded in `ack_list`, and a packet seen for the first
/// time that is not a bare acknowledgement is offered to `order`.
pub fn receive_datagram(
    bytes: &Vec<u8>,
    ack_list: &mut AcknowledgementList,
    ack_check: &mut AcknowledgementCheck,
    order: &mut OrderList,
) -> (r: Vec<Packet>)
    requires
        old(ack_list).wf(),
        old(ack_check).wf(),
        old(order).wf(),
    ensures
        final(ack_list).wf(),
        final(ack_check).wf(),
        final(order).wf(),
        !well_framed(bytes@) ==> {
            &&& r@.len() == 0
            &&& *final(ack_list) == *old(ack_list)
            &&& *final(ack_check) == *old(ack_check)
            &&& *final(order) == *old(order)
        },
        well_framed(bytes@) ==> {
            let p = decode(bytes@);
            let seen = old(ack_list)@.contains(p.sequence);
            &&& final(ack_check)@ == old(ack_check)@.union(
                confirmed(p.ack_begin, p.ack_end, p.miss),
            )
            &&& if kind_needs_ack(p.flags.p_type) {
                records(*old(ack_list), p.sequence, *final(ack_list))
            } else {
                *final(ack_list) == *old(ack_list)
            }
            &&& if seen || p.flags.p_type == PType::AckOnly {
                r@.len() == 0 && *final(order) == *old(order)
            } else {
                delivers(*old(order), p, *final(order), r@)
            }
        },
{
    let packet = match Packet::parse(bytes) {
        Ok(p) => p,
        Err(_) => {
            return Vec::new();
        },
    };
    let exists = ack_list.check(&packet.sequence);
    let ack = Acknowledgement {
        ack_begin: packet.ack.ack_begin,
        ack_end: packet.ack.ack_end,
        miss_count: packet.ack.miss_count,
        miss: packet.ack.miss.clone(),
    };
    assert(ack.miss@ =~= packet.ack.miss@);
    assert(acknowledged_by(ack) == confirmed(packet.ack.ack_begin, packet.ack.ack_end, packet.ack.miss@));
    ack_check.acknowledge(ack);
    if needs_ack(&packet) {
        // A record beyond the window is refused; the packet is still routed,
        // and the peer's repetition is recorded once the window has moved.
        let _ = ack_list.insert(packet.sequence);
    }
    if exists {
        return Vec::new();
    }
    match packet.flags.p_type {
        PType::AckOnly => Vec::new(),
        _ => {
            let mut out: Vec<Packet> = Vec::new();
            match order.insert(packet) {
                Ok(mut packets) => {
                    let ghost run = packets@;
                    while packets.len() > 0
                        invariant
                            out@ + packets@ == run,
                        decreases packets@.len(),
                    {
                        match packets.pop_front() {
                            Some(p) => {
                                out.push(p);
                                assert(out@ + packets@ =~= run);
                            },
                            None => {},
                        }
                    }
                    assert(out@ =~= run);
                },
                Err(_) => {},
            }
            out
        },
    }
}

/// The buffer hands out consecutive sequence numbers: the run released by one
/// offer continues right after the last number released before it, each number
/// once.
pub proof fn lemma_released_in_sequence(
    before: OrderList,
    p: PacketModel,
    after: OrderList,
    out: Seq<Packet>,
)
    requires
        before.wf(),
        delivers(before, p, after, out),
    ensures
        after.last() == before.last() + out.len(),
        forall|i: int| 0 <= i < out.len() ==> #[trigger] out[i].sequence == before.last() + 1 + i,
{
    assert forall|i: int| 0 <= i < out.len() implies #[trigger] out[i].sequence == before.last()
        + 1 + i by {
        if i > 0 {
            let k = (before.last() + 1 + i) as u32;
            assert(before.pending().contains_key(k));
            assert(out[i] == before.pending()[k]);
        }
    }
}

/// Whether a link has been silent for longer than its timeout.
pub fn link_expired(elapsed_ms: u64, timeout_ms: u64) -> (r: bool)
    ensures
        r == (elapsed_ms > timeout_ms),
{
    elapsed_ms > timeout_ms
}

/// What the buffer releases is a prefix of what the peer sent, in send order.
///
/// The peer numbers its packets in send order right after the buffer's start
/// (`sent[i]` carries `start + 1 + i`). Where every released packet is one of
/// the sent ones, the released stream is the start of the sent stream.
pub proof fn lemma_released_prefix_of_sent(
    states: Seq<OrderList>,
    offers: Seq<PacketModel>,
    runs: Seq<Seq<Packet>>,
    sent: Seq<PacketModel>,
)
    requires
        states.len() == offers.len() + 1,
        runs.len() == offers.len(),
        states[0].wf(),
        forall|i: int|
            0 <= i < offers.len() ==> #[trigger] delivers(states[i], offers[i], states[i + 1], runs[i]),
        forall|i: int| 0 <= i < sent.len() ==> #[trigger] sent[i].sequence == states[0].last() + 1 + i,
        forall|j: int|
            0 <= j < concat_runs(runs).len() ==> exists|i: int|
                0 <= i < sent.len() && sent[i] == (#[trigger] concat_runs(runs)[j])@,
    ensures
        concat_runs(runs).len() <= sent.len(),
        forall|j: int| 0 <= j < concat_runs(runs).len() ==> #[trigger] concat_runs(runs)[j]@ == sent[j],
{
    lemma_released_stream_in_sequence(states, offers, runs);
    let out = concat_runs(runs);
    assert forall|j: int| 0 <= j < out.len() implies #[trigger] out[j]@ == sent[j] && j < sent.len() by {
        let i = choose|i: int| 0 <= i < sent.len() && sent[i] == (#[trigger] out[j])@;
        assert(sent[i].sequence == states[0].last() + 1 + i);
        assert(out[j].sequence == states[0].last() + 1 + j);
    }
    if out.len() > 0 {
        assert(out[out.len() - 1]@ == sent[out.len() - 1]);
    }
}

/// The packets of a series of released runs, one run after another.
pub open spec fn concat_runs(runs: Seq<Seq<Packet>>) -> Seq<Packet>
    decreases runs.len(),
{
    if runs.len() == 0 {
        seq![]
    } else {
        concat_runs(runs.drop_last()) + runs.last()
    }
}

/// Whatever arrives, in whatever order and however often, the stream that the
/// buffer releases over a series of offers carries the sequence numbers that
/// follow its start, each once and in increasing order.
pub proof fn lemma_released_stream_in_sequence(
    states: Seq<OrderList>,
    offers: Seq<PacketModel>,
    runs: Seq<Seq<Packet>>,
)
    requires
        states.len() == offers.len() + 1,
        runs.len() == offers.len(),
        states[0].wf(),
        forall|i: int|
            0 <= i < offers.len() ==> #[trigger] delivers(states[i], offers[i], states[i + 1], runs[i]),
    ensures
        states.last().last() == states[0].last() + concat_runs(runs).len(),
        forall|j: int|
            0 <= j < concat_runs(runs).len() ==> #[trigger] concat_runs(runs)[j].sequence
                == states[0].last() + 1 + j,
    decreases offers.len(),
{
    if offers.len() > 0 {
        let n = offers.len() - 1;
        let prev_states = states.drop_last();
        let prev_offers = offers.drop_last();
        let prev_runs = runs.drop_last();
        assert forall|i: int| 0 <= i < prev_offers.len() implies #[trigger] delivers(
            prev_states[i],
            prev_offers[i],
            prev_states[i + 1],
            prev_runs[i],
        ) by {
            assert(delivers(states[i], offers[i], states[i + 1], runs[i]));
        }
        lemma_released_stream_in_sequence(prev_states, prev_offers, prev_runs);
        assert(delivers(states[n], offers[n], states[n + 1], runs[n]));
        if n > 0 {
            let m = n - 1;
            assert(delivers(states[m], offers[m], states[m + 1], runs[m]));
            assert(states[m + 1] == states[n]);
        }
        assert(states[n].wf());
        lemma_released_in_sequence(states[n], offers[n], states[n + 1], runs[n]);
        let head = concat_runs(prev_runs);
        assert(concat_runs(runs) == head + runs[n]);
        assert forall|j: int| 0 <= j < concat_runs(runs).len() implies #[trigger] concat_runs(
            runs,
        )[j].sequence == states[0].last() + 1 + j by {
            if j < head.len() {
                assert(concat_runs(runs)[j] == head[j]);
            } else {
                assert(concat_runs(runs)[j] == runs[n][j - head.len()]);
            }
        }
    }
}

} // verus!
