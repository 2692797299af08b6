//! The sender's window: which packet goes out next, when a window is repeated,
//! and when a link is given up.
//!
//! The batch holds the packets of the current window followed by one meta
//! marker. Each pass over the batch sends every packet that the peer has not
//! confirmed yet and puts those that need acknowledgement back at its end; the
//! marker then makes the sender wait, and counts the passes.
use std::collections::VecDeque;
use vstd::prelude::*;

use crate::acknowledgement::{missing_upto, AcknowledgementCheck, AcknowledgementList};
use crate::config::LinkConfig;
use crate::link::{kind_needs_ack, needs_ack};
use crate::packet::{encode, PType, Packet, PacketFlags, PacketMeta, PacketModel};

verus! {

/// What the sender's worker does after one step of the window.
#[derive(Debug)]
pub enum SendAction {
    /// Send these bytes to the peer.
    Transmit(Vec<u8>),
    /// Nothing to send: the peer has confirmed the packet already.
    Skip,
    /// Wait this many milliseconds, then go on.
    Wait(u64),
    /// Wait this many milliseconds, then stop the link: the window has been
    /// repeated `max_retries` times.
    Stop(u64),
    /// The batch is empty: take up to `window_size` packets from the queue and
    /// hand them to [`SendWindow::refill`].
    Refill,
}

/// The meta marker that closes a window.
pub open spec fn marker(retry_count: i16, delay_ms: u64) -> PacketModel {
    PacketModel {
        flags: PacketFlags { p_type: PType::Extended, ack: false, enc: false },
        sequence: 0,
        ack_begin: 0,
        ack_end: 0,
        miss_count: 0,
        miss: Seq::empty(),
        payload: Seq::empty(),
        is_meta: true,
        meta: PacketMeta { delay_ms, retry_count },
    }
}

/// A packet with the current summary of `list` attached.
pub open spec fn stamped(p: PacketModel, list: AcknowledgementList) -> PacketModel {
    let miss = missing_upto(list@, list.begin(), list.end() as nat);
    PacketModel {
        flags: PacketFlags { ack: true, ..p.flags },
        ack_begin: list.begin(),
        ack_end: list.end(),
        miss_count: miss.len() as u8,
        miss,
        ..p
    }
}

/// The batch after one step over `batch`, where the peer has confirmed
/// `confirmed` and `list` summarises what we received.
pub open spec fn next_batch(
    batch: Seq<PacketModel>,
    confirmed: Set<u32>,
    list: AcknowledgementList,
    config: LinkConfig,
) -> Seq<PacketModel> {
    if batch.len() == 0 {
        batch
    } else {
        let p = batch[0];
        let rest = batch.drop_first();
        if p.is_meta {
            if rest.len() == 0 || p.meta.retry_count + 1 >= config.max_retries {
                rest
            } else {
                rest.push(marker((p.meta.retry_count + 1) as i16, config.retry_delay))
            }
        } else if kind_needs_ack(p.flags.p_type) && confirmed.contains(p.sequence) {
            rest
        } else if kind_needs_ack(p.flags.p_type) {
            rest.push(stamped(p, list))
        } else {
            rest
        }
    }
}

/// A packet that needs acknowledgement leaves the batch only once the peer
/// has confirmed it: after a step, every unconfirmed one is still there, with
/// its sequence number, kind and payload.
pub proof fn lemma_unconfirmed_stay(
    batch: Seq<PacketModel>,
    confirmed: Set<u32>,
    list: AcknowledgementList,
    config: LinkConfig,
    i: int,
)
    requires
        0 <= i < batch.len(),
        !batch[i].is_meta,
        kind_needs_ack(batch[i].flags.p_type),
        !confirmed.contains(batch[i].sequence),
    ensures
        exists|j: int|
            0 <= j < next_batch(batch, confirmed, list, config).len() && {
                let q = #[trigger] next_batch(batch, confirmed, list, config)[j];
                &&& q.sequence == batch[i].sequence
                &&& q.flags.p_type == batch[i].flags.p_type
                &&& q.payload == batch[i].payload
                &&& !q.is_meta
            },
{
    let after = next_batch(batch, confirmed, list, config);
    let rest = batch.drop_first();
    if i == 0 {
        assert(after == rest.push(stamped(batch[0], list)));
        assert(after[rest.len() as int] == stamped(batch[0], list));
    } else {
        assert(rest[i - 1] == batch[i]);
        assert(after[i - 1] == batch[i]);
    }
}

/// The models of a sequence of packets.
pub open spec fn models(s: Seq<Packet>) -> Seq<PacketModel> {
    s.map_values(|p: Packet| p@)
}

/// The batch of packets that the sender is working through.
pub struct SendWindow {
    batch_queue: VecDeque<Packet>,
}

/// A meta marker closing a window.
fn new_marker(retry_count: i16, delay_ms: u64) -> (r: Packet)
    ensures
        r@ == marker(retry_count, delay_ms),
{
    let mut meta_packet = Packet::new(PType::Extended, 0);
    meta_packet.set_meta(PacketMeta { retry_count, delay_ms });
    meta_packet
}

impl SendWindow {
    /// The packets in the batch, in order.
    pub closed spec fn batch(&self) -> Seq<PacketModel> {
        models(self.batch_queue@)
    }

    /// An empty batch.
    pub fn new() -> (r: SendWindow)
        ensures
            r.batch() == Seq::<PacketModel>::empty(),
    {
        let r = SendWindow { batch_queue: VecDeque::new() };
        assert(r.batch() =~= Seq::<PacketModel>::empty());
        r
    }

    /// Whether the batch is empty.
    pub fn is_empty(&self) -> (r: bool)
        ensures
            r == (self.batch().len() == 0),
    {
        self.batch_queue.len() == 0
    }

    /// Start a new window with the packets taken from the queue.
    ///
    /// Where there are none, a bare acknowledgement carrying `send_seq` takes
    /// their place and the marker waits `ack_only_time`; otherwise it waits
    /// `retry_delay`. Returns whether the queue had nothing to send.
    pub fn refill(&mut self, fetched: Vec<Packet>, send_seq: u32, config: &LinkConfig) -> (r: bool)
        requires
            old(self).batch().len() == 0,
        ensures
            r == (fetched@.len() == 0),
            r ==> final(self).batch() == seq![
                Packet::new_spec(PType::AckOnly, send_seq),
                marker(-1i16, config.ack_only_time),
            ],
            !r ==> final(self).batch() == models(fetched@).push(marker(-1i16, config.retry_delay)),
    {
        let ghost given = fetched@;
        let mut fetched = fetched;
        while fetched.len() > 0
            invariant
                models(self.batch_queue@) + models(fetched@) == models(given),
            decreases fetched@.len(),
        {
            let p = fetched.remove(0);
            self.batch_queue.push_back(p);
            assert(models(self.batch_queue@) + models(fetched@) =~= models(given));
        }
        assert(models(self.batch_queue@) =~= models(given));
        let mut retry_delay = config.retry_delay;
        let empty = self.batch_queue.len() == 0;
        if empty {
            self.batch_queue.push_back(Packet::new(PType::AckOnly, send_seq));
            retry_delay = config.ack_only_time;
        }
        self.batch_queue.push_back(new_marker(-1, retry_delay));
        assert(self.batch() =~= if empty {
            seq![Packet::new_spec(PType::AckOnly, send_seq), marker(-1i16, config.ack_only_time)]
        } else {
            models(given).push(marker(-1i16, config.retry_delay))
        });
        empty
    }

    /// Take one step through the batch.
    ///
    /// A marker makes the worker wait its delay; if packets remain, it is
    /// replaced by one that counts one more pass, or the link is stopped once
    /// `max_retries` passes have been made. A packet that needs acknowledgement
    /// and that the peer has confirmed is dropped. Any other packet gets the
    /// current summary of `ack_list`, is sent, and goes back to the end of the
    /// batch if it needs acknowledgement.
    pub fn step(
        &mut self,
        ack_check: &AcknowledgementCheck,
        ack_list: &AcknowledgementList,
        config: &LinkConfig,
    ) -> (r: SendAction)
        requires
            ack_check.wf(),
            ack_list.wf(),
        ensures
            final(self).batch() == next_batch(old(self).batch(), ack_check@, *ack_list, *config),
            old(self).batch().len() == 0 ==> r is Refill,
            old(self).batch().len() > 0 ==> {
                let p = old(self).batch()[0];
                let rest = old(self).batch().drop_first();
                if p.is_meta {
                    if rest.len() > 0 && p.meta.retry_count + 1 >= config.max_retries {
                        r == SendAction::Stop(p.meta.delay_ms)
                    } else {
                        r == SendAction::Wait(p.meta.delay_ms)
                    }
                } else if kind_needs_ack(p.flags.p_type) && ack_check@.contains(p.sequence) {
                    r is Skip
                } else {
                    r matches SendAction::Transmit(bytes) && bytes@ == encode(stamped(p, *ack_list))
                }
            },
    {
        match self.batch_queue.pop_front() {
            None => SendAction::Refill,
            Some(mut packet) => {
                assert(self.batch() =~= old(self).batch().drop_first());
                if packet.is_meta {
                    let delay = packet.meta.delay_ms;
                    if self.batch_queue.len() == 0 {
                        SendAction::Wait(delay)
                    } else if packet.meta.retry_count as i32 + 1 >= config.max_retries as i32 {
                        SendAction::Stop(delay)
                    } else {
                        let ghost rest = self.batch();
                        let retry_count = packet.meta.retry_count + 1;
                        self.batch_queue.push_back(new_marker(retry_count, config.retry_delay));
                        assert(self.batch() =~= rest.push(marker(retry_count, config.retry_delay)));
                        SendAction::Wait(delay)
                    }
                } else if needs_ack(&packet) && ack_check.check(&packet.sequence) {
                    SendAction::Skip
                } else {
                    let ghost rest = self.batch();
                    packet.add_ack(ack_list.get());
                    let data = packet.compile();
                    if needs_ack(&packet) {
                        self.batch_queue.push_back(packet);
                        assert(self.batch() =~= rest.push(packet@));
                    }
                    SendAction::Transmit(data)
                }
            },
        }
    }
}

/// The next packet of a link: the sequence number advances by one and the
/// packet of the given kind carries it with the given payload.
pub fn next_packet(send_seq: &mut u32, p_type: PType, payload: Vec<u8>) -> (r: Packet)
    requires
        *old(send_seq) < u32::MAX,
    ensures
        *final(send_seq) == *old(send_seq) + 1,
        r@ == (PacketModel { payload: payload@, ..Packet::new_spec(p_type, *final(send_seq)) }),
{
    *send_seq = *send_seq + 1;
    let mut packet = Packet::new(p_type, *send_seq);
    packet.append_payload(payload);
    packet
}

/// The next data packet of a link, as [`next_packet`] makes it.
pub fn next_data_packet(send_seq: &mut u32, payload: Vec<u8>) -> (r: Packet)
    requires
        *old(send_seq) < u32::MAX,
    ensures
        *final(send_seq) == *old(send_seq) + 1,
        r@ == (PacketModel { payload: payload@, ..Packet::new_spec(PType::Data, *final(send_seq)) }),
{
    next_packet(send_seq, PType::Data, payload)
}

/// A link numbers its packets in send order: the `i`-th packet made from
/// `start` carries `start + 1 + i`.
pub proof fn lemma_numbered_in_send_order(start: u32, seqs: Seq<u32>)
    requires
        start + seqs.len() <= u32::MAX,
        seqs.len() > 0 ==> seqs[0] == start + 1,
        forall|i: int| 0 < i < seqs.len() ==> #[trigger] seqs[i] == seqs[i - 1] + 1,
    ensures
        forall|i: int| 0 <= i < seqs.len() ==> #[trigger] seqs[i] == start + 1 + i,
    decreases seqs.len(),
{
    if seqs.len() > 0 {
        let prev = seqs.drop_last();
        assert forall|i: int| 0 < i < prev.len() implies #[trigger] prev[i] == prev[i - 1] + 1 by {
            assert(seqs[i] == seqs[i - 1] + 1);
        }
        lemma_numbered_in_send_order(start, prev);
        assert forall|i: int| 0 <= i < seqs.len() implies #[trigger] seqs[i] == start + 1 + i by {
            if i < prev.len() {
                assert(seqs[i] == prev[i]);
            } else if i > 0 {
                assert(seqs[i] == seqs[i - 1] + 1);
                assert(seqs[i - 1] == prev[i - 1]);
            }
        }
    }
}

} // verus!
