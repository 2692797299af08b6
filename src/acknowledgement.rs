//! Bookkeeping of acknowledgement numbers: what a peer has received
//! ([`AcknowledgementList`]) and what the other side has confirmed
//! ([`AcknowledgementCheck`]).
//!
//! Offsets are 8-bit throughout, in memory as on the wire, so a summary
//! covers at most [`MAX_WINDOW`] sequence numbers above its start.
use std::collections::HashMap;
use vstd::prelude::*;

use crate::error::AetherError;

verus! {

broadcast use vstd::std_specs::hash::group_hash_axioms;

/// The largest offset above `ack_begin` that an [`AcknowledgementList`] accepts.
pub const MAX_WINDOW: u8 = 255;

/// A summary of one observation window.
///
/// Everything up to `ack_begin` has been received; of the sequence numbers
/// `ack_begin + 1 ..= ack_begin + ack_end`, the offsets listed in `miss` have not.
#[derive(Debug, Clone)]
pub struct Acknowledgement {
    /// The sequence number from which the summary begins.
    pub ack_begin: u32,
    /// The last offset, relative to `ack_begin`, that the summary covers.
    pub ack_end: u8,
    /// The number of entries of `miss`.
    pub miss_count: u8,
    /// The offsets, relative to `ack_begin`, that are still missing.
    pub miss: Vec<u8>,
}

/// The sequence numbers that a summary confirms: everything up to `begin`, and
/// each offset up to `end` that `miss` does not list.
pub open spec fn confirmed(begin: u32, end: u8, miss: Seq<u8>) -> Set<u32> {
    Set::new(
        |s: u32| s <= begin || (s - begin <= end && !miss.contains((s - begin) as u8)),
    )
}

/// The sequence numbers that an [`Acknowledgement`] confirms.
pub open spec fn acknowledged_by(a: Acknowledgement) -> Set<u32> {
    confirmed(a.ack_begin, a.ack_end, a.miss@)
}

/// The offsets `1..=k` above `begin` that are not in `received`, in increasing order.
pub open spec fn missing_upto(received: Set<u32>, begin: u32, k: nat) -> Seq<u8>
    decreases k,
{
    if k == 0 {
        seq![]
    } else {
        let prev = missing_upto(received, begin, (k - 1) as nat);
        if received.contains((begin + k) as u32) {
            prev
        } else {
            prev.push(k as u8)
        }
    }
}

/// All sequence numbers up to `begin`.
pub open spec fn up_to(begin: u32) -> Set<u32> {
    Set::new(|s: u32| s <= begin)
}

proof fn lemma_missing_upto_len(received: Set<u32>, begin: u32, k: nat)
    ensures
        missing_upto(received, begin, k).len() <= k,
    decreases k,
{
    if k > 0 {
        lemma_missing_upto_len(received, begin, (k - 1) as nat);
    }
}

proof fn lemma_missing_upto_members(received: Set<u32>, begin: u32, k: nat)
    requires
        k <= 255,
        begin + k <= u32::MAX,
    ensures
        forall|x: u8|
            #[trigger] missing_upto(received, begin, k).contains(x) <==> (1 <= x <= k
                && !received.contains((begin + x) as u32)),
    decreases k,
{
    if k > 0 {
        lemma_missing_upto_members(received, begin, (k - 1) as nat);
        let prev = missing_upto(received, begin, (k - 1) as nat);
        if !received.contains((begin + k) as u32) {
            assert forall|x: u8| #[trigger] prev.push(k as u8).contains(x) <==> (prev.contains(x)
                || x == k as u8) by {
                if x == k as u8 {
                    assert(prev.push(k as u8)[prev.len() as int] == x);
                }
                if prev.push(k as u8).contains(x) && x != k as u8 {
                    let i = choose|i: int|
                        0 <= i < prev.len() + 1 && #[trigger] prev.push(k as u8)[i] == x;
                    assert(prev[i] == x);
                }
                if prev.contains(x) {
                    let i = choose|i: int| 0 <= i < prev.len() && #[trigger] prev[i] == x;
                    assert(prev.push(k as u8)[i] == x);
                }
            }
        }
    }
}

proof fn lemma_missing_upto_first(received: Set<u32>, begin: u32, k: nat)
    requires
        k >= 1,
        !received.contains((begin + 1) as u32),
    ensures
        missing_upto(received, begin, k).len() > 0,
        missing_upto(received, begin, k)[0] == 1,
    decreases k,
{
    if k > 1 {
        lemma_missing_upto_first(received, begin, (k - 1) as nat);
    } else {
        assert(missing_upto(received, begin, 0) == Seq::<u8>::empty());
    }
}

/// Linear search in a list of offsets.
fn contains_offset(v: &Vec<u8>, x: u8) -> (r: bool)
    ensures
        r == v@.contains(x),
{
    let mut i: usize = 0;
    while i < v.len()
        invariant
            0 <= i <= v@.len(),
            forall|j: int| 0 <= j < i ==> v@[j] != x,
        decreases v@.len() - i,
    {
        if v[i] == x {
            return true;
        }
        i += 1;
    }
    false
}

/// The sequence numbers that the other peer has confirmed, kept by the sender.
#[derive(Debug)]
pub struct AcknowledgementCheck {
    /// Every sequence number up to this one is confirmed.
    begin: u32,
    /// Confirmed sequence numbers above `begin`.
    list: HashMap<u32, bool>,
}

impl View for AcknowledgementCheck {
    type V = Set<u32>;

    /// The confirmed sequence numbers.
    closed spec fn view(&self) -> Set<u32> {
        Set::new(|s: u32| s <= self.begin || self.list@.contains_key(s))
    }
}

impl AcknowledgementCheck {
    /// The internal invariant: the sparse part lies above `begin` and holds only `true`.
    pub closed spec fn wf(&self) -> bool {
        forall|k: u32| #[trigger] self.list@.contains_key(k) ==> k > self.begin && self.list@[k]
    }

    /// Create a check list in which everything up to `begin` is confirmed.
    pub fn new(begin: u32) -> (r: AcknowledgementCheck)
        ensures
            r.wf(),
            r@ == up_to(begin),
    {
        let r = AcknowledgementCheck { begin, list: HashMap::new() };
        assert(r@ =~= up_to(begin));
        r
    }

    /// Absorb confirmed sequence numbers that follow `begin` into `begin`.
    fn update_begin(&mut self)
        requires
            old(self).wf(),
        ensures
            final(self).wf(),
            final(self)@ == old(self)@,
    {
        while self.begin < u32::MAX && self.list.contains_key(&(self.begin + 1))
            invariant
                self.wf(),
                self@ == old(self)@,
            decreases u32::MAX - self.begin,
        {
            let ghost before = self@;
            let next = self.begin + 1;
            self.list.remove(&next);
            self.begin = next;
            assert(self@ =~= before);
        }
    }

    /// Merge a received summary: everything that it confirms becomes confirmed.
    pub fn acknowledge(&mut self, ack: Acknowledgement)
        requires
            old(self).wf(),
        ensures
            final(self).wf(),
            final(self)@ == old(self)@.union(acknowledged_by(ack)),
    {
        if self.begin < ack.ack_begin {
            let start = self.begin;
            let stop = ack.ack_begin;
            let mut i: u32 = start;
            while i < stop
                invariant
                    start <= i <= stop,
                    self.wf(),
                    self@ == old(self)@.union(Set::new(|s: u32| s < i)),
                    old(self)@.contains(start),
                    forall|s: u32| s <= start ==> #[trigger] old(self)@.contains(s),
                decreases stop - i,
            {
                self.insert(i);
                i += 1;
                assert(self@ =~= old(self)@.union(Set::new(|s: u32| s < i)));
            }
            self.insert(stop);
            assert(self@ =~= old(self)@.union(up_to(ack.ack_begin)));
        } else {
            assert(old(self)@.union(up_to(ack.ack_begin)) =~= old(self)@);
        }
        let ghost mid = self@;
        let begin = ack.ack_begin;
        let end = ack.ack_end;
        let mut i: u16 = 0;
        while i <= end as u16
            invariant
                0 <= i <= end as u16 + 1,
                self.wf(),
                begin == ack.ack_begin,
                end == ack.ack_end,
                mid == old(self)@.union(up_to(ack.ack_begin)),
                self@ == mid.union(
                    Set::new(
                        |s: u32|
                            begin <= s && s - begin < i && !ack.miss@.contains((s - begin) as u8),
                    ),
                ),
            decreases end as u16 + 1 - i,
        {
            if begin as u64 + i as u64 <= u32::MAX as u64 && !contains_offset(&ack.miss, i as u8) {
                self.insert(begin + i as u32);
            }
            i += 1;
            assert(self@ =~= mid.union(
                Set::new(
                    |s: u32| begin <= s && s - begin < i && !ack.miss@.contains((s - begin) as u8),
                ),
            ));
        }
        assert(self@ =~= old(self)@.union(acknowledged_by(ack)));
    }

    /// Mark one sequence number as confirmed.
    pub fn insert(&mut self, ack: u32)
        requires
            old(self).wf(),
        ensures
            final(self).wf(),
            final(self)@ == old(self)@.insert(ack),
    {
        if ack > self.begin {
            self.list.insert(ack, true);
        }
        assert(self@ =~= old(self)@.insert(ack));
        self.update_begin();
    }

    /// Whether the sequence number `ack` has been confirmed.
    pub fn check(&self, ack: &u32) -> (r: bool)
        requires
            self.wf(),
        ensures
            r == self@.contains(*ack),
    {
        if *ack <= self.begin {
            return true;
        }
        match self.list.get(ack) {
            None => false,
            Some(v) => *v,
        }
    }
}

/// The sequence numbers received from the other peer, kept by the receiver and
/// summarised into every outgoing packet.
#[derive(Debug)]
pub struct AcknowledgementList {
    /// Received sequence numbers above `ack_begin`.
    list: HashMap<u32, bool>,
    /// Every sequence number up to this one has been received.
    ack_begin: u32,
    /// The offset of the highest received sequence number above `ack_begin`.
    ack_end: u8,
}

impl View for AcknowledgementList {
    type V = Set<u32>;

    /// The received sequence numbers.
    closed spec fn view(&self) -> Set<u32> {
        Set::new(|s: u32| s <= self.ack_begin || self.list@.contains_key(s))
    }
}

/// How recording `x` into the list `before` yields the list `after`: a number
/// within the window joins the received set, one beyond it changes nothing.
pub open spec fn records(before: AcknowledgementList, x: u32, after: AcknowledgementList) -> bool {
    &&& after.wf()
    &&& after.begin() >= before.begin()
    &&& if x as int > before.begin() + MAX_WINDOW {
        after@ == before@
    } else {
        after@ == before@.insert(x)
    }
}

impl AcknowledgementList {
    /// The start of the window: everything up to it has been received.
    pub closed spec fn begin(&self) -> u32 {
        self.ack_begin
    }

    /// The offset of the end of the window.
    pub closed spec fn end(&self) -> u8 {
        self.ack_end
    }

    /// The internal invariant: the window is compacted (`begin + 1` is missing),
    /// holds its highest entry at `end`, and fits in 32 bits.
    pub closed spec fn wf(&self) -> bool {
        &&& self.ack_begin + self.ack_end <= u32::MAX
        &&& forall|k: u32| #[trigger]
            self.list@.contains_key(k) ==> self.ack_begin + 1 < k <= self.ack_begin
                + self.ack_end && self.list@[k]
        &&& self.ack_end > 0 ==> self.list@.contains_key((self.ack_begin + self.ack_end) as u32)
    }

    /// Create a list in which everything up to `ack_begin` has been received.
    pub fn new(ack_begin: u32) -> (r: AcknowledgementList)
        ensures
            r.wf(),
            r@ == up_to(ack_begin),
            r.begin() == ack_begin,
            r.end() == 0,
    {
        let r = AcknowledgementList { list: HashMap::new(), ack_begin, ack_end: 0 };
        assert(r@ =~= up_to(ack_begin));
        r
    }

    /// Whether the sequence number `ack` has been received.
    pub fn check(&self, ack: &u32) -> (r: bool)
        requires
            self.wf(),
        ensures
            r == self@.contains(*ack),
    {
        if *ack <= self.ack_begin {
            true
        } else if *ack as u64 <= self.ack_begin as u64 + self.ack_end as u64 {
            match self.list.get(ack) {
                None => false,
                Some(v) => *v,
            }
        } else {
            false
        }
    }

    /// Record a received sequence number. One more than [`MAX_WINDOW`] above the
    /// start of the window is refused with `WindowOverflow`, and nothing changes.
    pub fn insert(&mut self, ack: u32) -> (r: Result<(), AetherError>)
        requires
            old(self).wf(),
        ensures
            records(*old(self), ack, *final(self)),
            r is Ok <==> ack as int <= old(self).begin() + MAX_WINDOW,
            r is Err ==> r == Err::<(), AetherError>(AetherError::WindowOverflow),
    {
        if ack as u64 > MAX_WINDOW as u64 + self.ack_begin as u64 {
            return Err(AetherError::WindowOverflow);
        } else if ack > self.ack_begin {
            let n = (ack - self.ack_begin) as u8;
            if n > self.ack_end {
                self.ack_end = n;
            }
            self.list.insert(ack, true);
            assert(self@ =~= old(self)@.insert(ack));
            self.update_begin();
        } else {
            assert(self@ =~= old(self)@.insert(ack));
        }
        Ok(())
    }

    /// Advance `ack_begin` over received sequence numbers that follow it.
    fn update_begin(&mut self)
        requires
            old(self).ack_begin + old(self).ack_end <= u32::MAX,
            forall|k: u32| #[trigger]
                old(self).list@.contains_key(k) ==> old(self).ack_begin < k <= old(self).ack_begin
                    + old(self).ack_end && old(self).list@[k],
            old(self).ack_end > 0 ==> old(self).list@.contains_key(
                (old(self).ack_begin + old(self).ack_end) as u32,
            ),
        ensures
            final(self).wf(),
            final(self)@ == old(self)@,
            final(self).ack_begin >= old(self).ack_begin,
    {
        while self.ack_end > 0 && self.list.contains_key(&(self.ack_begin + 1))
            invariant
                self.ack_begin + self.ack_end <= u32::MAX,
                forall|k: u32| #[trigger]
                    self.list@.contains_key(k) ==> self.ack_begin < k <= self.ack_begin
                        + self.ack_end && self.list@[k],
                self.ack_end > 0 ==> self.list@.contains_key(
                    (self.ack_begin + self.ack_end) as u32,
                ),
                self@ == old(self)@,
                self.ack_begin >= old(self).ack_begin,
            decreases self.ack_end,
        {
            let ghost before = self@;
            let next = self.ack_begin + 1;
            self.list.remove(&next);
            self.ack_begin = next;
            self.ack_end = self.ack_end - 1;
            assert(self@ =~= before);
        }
    }

    /// The summary of this list: its window and the offsets missing in it.
    pub fn get(&self) -> (r: Acknowledgement)
        requires
            self.wf(),
        ensures
            r.ack_begin == self.begin(),
            r.ack_end == self.end(),
            r.miss@ == missing_upto(self@, self.begin(), self.end() as nat),
            r.miss_count as int == r.miss@.len(),
            self@ == confirmed(r.ack_begin, r.ack_end, r.miss@),
            r.ack_begin + r.ack_end <= u32::MAX,
            r.ack_end > 0 ==> r.miss@.len() > 0 && r.miss@[0] == 1,
            r.ack_end > 0 ==> !r.miss@.contains(r.ack_end),
    {
        let mut miss: Vec<u8> = Vec::new();
        let mut i: u16 = 1;
        while i <= self.ack_end as u16
            invariant
                self.wf(),
                1 <= i <= self.ack_end as u16 + 1,
                miss@ == missing_upto(self@, self.ack_begin, (i - 1) as nat),
            decreases self.ack_end as u16 + 1 - i,
        {
            let s = i as u32 + self.ack_begin;
            assert(self@.contains(s) == self.list@.contains_key(s));
            match self.list.get(&s) {
                None => miss.push(i as u8),
                Some(false) => miss.push(i as u8),
                Some(true) => (),
            }
            i += 1;
        }
        proof {
            let b = self.ack_begin;
            let e = self.ack_end;
            lemma_missing_upto_len(self@, b, e as nat);
            lemma_missing_upto_members(self@, b, e as nat);
            if e > 0 {
                lemma_missing_upto_first(self@, b, e as nat);
                assert(self@.contains((b + e) as u32));
            }
            assert forall|s: u32| #[trigger] self@.contains(s) == confirmed(b, e, miss@).contains(s) by {
                if s > b && s - b <= e {
                    assert((b + ((s - b) as u8)) as u32 == s);
                }
            }
            assert(self@ =~= confirmed(b, e, miss@));
        }
        let miss_count = miss.len() as u8;
        Acknowledgement { ack_begin: self.ack_begin, ack_end: self.ack_end, miss_count, miss }
    }

    /// Whether no sequence number in the window is missing.
    pub fn is_complete(&self) -> (r: bool)
        requires
            self.wf(),
        ensures
            r == (missing_upto(self@, self.begin(), self.end() as nat).len() == 0),
    {
        self.get().miss_count == 0
    }
}

/// Two well-formed lists that hold the same received set agree in their window.
pub proof fn lemma_view_determines_window(a: AcknowledgementList, b: AcknowledgementList)
    requires
        a.wf(),
        b.wf(),
        a@ == b@,
    ensures
        a.begin() == b.begin(),
        a.end() == b.end(),
{
    if a.ack_begin < b.ack_begin {
        let s = (a.ack_begin + 1) as u32;
        assert(b@.contains(s));
        assert(a@.contains(s));
    }
    if b.ack_begin < a.ack_begin {
        let s = (b.ack_begin + 1) as u32;
        assert(a@.contains(s));
        assert(b@.contains(s));
    }
    if a.ack_end > b.ack_end {
        let s = (a.ack_begin + a.ack_end) as u32;
        assert(a@.contains(s));
        assert(b@.contains(s));
    }
    if b.ack_end > a.ack_end {
        let s = (b.ack_begin + b.ack_end) as u32;
        assert(b@.contains(s));
        assert(a@.contains(s));
    }
}

/// Recording the same sequence number twice leaves the list as recording it
/// once does: the same received set, window start and window end.
pub proof fn lemma_insert_idempotent(
    list: AcknowledgementList,
    x: u32,
    once: AcknowledgementList,
    twice: AcknowledgementList,
)
    requires
        list.wf(),
        records(list, x, once),
        records(once, x, twice),
    ensures
        twice@ == once@,
        twice.begin() == once.begin(),
        twice.end() == once.end(),
{
    if x as int <= list.begin() + MAX_WINDOW {
        assert(once@.contains(x));
        assert(twice@ =~= once@);
    } else {
        lemma_view_determines_window(list, once);
    }
    lemma_view_determines_window(once, twice);
}

/// The received set after recording each of `xs` in turn into a list holding
/// `received`, where every record lies within the window.
pub open spec fn after_records(received: Set<u32>, xs: Seq<u32>) -> Set<u32>
    decreases xs.len(),
{
    if xs.len() == 0 {
        received
    } else {
        after_records(received, xs.drop_last()).insert(xs.last())
    }
}

/// Recording never forgets: a list that has received `x` still reports it
/// after any further record, accepted or refused.
pub proof fn lemma_record_keeps_received(
    before: AcknowledgementList,
    x: u32,
    y: u32,
    after: AcknowledgementList,
)
    requires
        before.wf(),
        before@.contains(x),
        records(before, y, after),
    ensures
        after@.contains(x),
{
}

/// Every sequence number recorded in turn is reported as received afterwards.
pub proof fn lemma_recorded_are_received(received: Set<u32>, xs: Seq<u32>)
    ensures
        forall|i: int| 0 <= i < xs.len() ==> #[trigger] after_records(received, xs).contains(xs[i]),
        received.subset_of(after_records(received, xs)),
    decreases xs.len(),
{
    if xs.len() > 0 {
        let prev = xs.drop_last();
        lemma_recorded_are_received(received, prev);
        assert forall|i: int| 0 <= i < xs.len() implies #[trigger] after_records(
            received,
            xs,
        ).contains(xs[i]) by {
            if i < xs.len() - 1 {
                assert(xs[i] == prev[i]);
            }
        }
    }
}

/// After merging a summary, every sequence number of its window that it does
/// not list as missing is confirmed.
pub proof fn lemma_acknowledged_window(confirmed: Set<u32>, a: Acknowledgement, s: u32)
    requires
        a.ack_begin <= s <= a.ack_begin + a.ack_end,
        !a.miss@.contains((s - a.ack_begin) as u8),
    ensures
        confirmed.union(acknowledged_by(a)).contains(s),
{
}

} // verus!
