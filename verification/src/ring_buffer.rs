//! Event Ring Buffer — single-producer/single-consumer queue of fixed-size
//! events.
//!
//! Layout: a 128-byte header (producer counter in bytes 0..8, consumer
//! counter in bytes 64..72, each on its own cache line) followed by 65,536
//! slots of 64 bytes each. Both counters only ever grow; the pending events
//! are the slots from the consumer counter up to the producer counter,
//! taken modulo the capacity.

use vstd::prelude::*;

use crate::bytes::{
    le_byte, lemma_le_at_n_agree, lemma_le_at_n_zero, lemma_le_u16_roundtrip,
    lemma_le_u64_roundtrip, u16_at, u64_at,
};
use crate::region::Region;
use crate::types::{Event, EventHeader, EventModel, SegmentError};

verus! {

/// Number of event slots; a power of two.
pub const RING_CAPACITY: usize = 65536;

/// Bytes of header before the first slot.
pub const RING_HEADER: usize = 128;

/// Bytes per event slot.
pub const EVENT_SIZE: usize = 64;

/// Size of the ring segment in bytes.
pub const RING_SIZE: usize = RING_HEADER + RING_CAPACITY * EVENT_SIZE;

pub const OFF_PRODUCER: usize = 0;

pub const OFF_CONSUMER: usize = 64;

/// The producer counter spelled by a segment's bytes.
pub open spec fn prod_of(s: Seq<u8>) -> u64 {
    u64_at(s, OFF_PRODUCER as int)
}

/// The consumer counter spelled by a segment's bytes.
pub open spec fn cons_of(s: Seq<u8>) -> u64 {
    u64_at(s, OFF_CONSUMER as int)
}

/// Byte offset of the slot that counter value `c` names.
pub open spec fn slot_off(c: u64) -> int {
    RING_HEADER + (c % (RING_CAPACITY as u64)) * EVENT_SIZE
}

/// Byte `k` of the fixed 64-byte encoding of an event.
pub open spec fn event_byte(e: EventModel, k: int) -> u8 {
    if k < 8 {
        le_byte(e.timestamp, k)
    } else if k < 16 {
        le_byte(e.sequence, k - 8)
    } else if k < 18 {
        le_byte(e.event_type as u64, k - 16)
    } else if k == 18 {
        e.source_proc
    } else if k == 19 {
        e.reserved
    } else if k < 22 {
        le_byte(e.payload_len as u64, k - 20)
    } else if k < 24 {
        e.reserved2[k - 22]
    } else {
        e.payload[k - 24]
    }
}

/// The event spelled by the 64 bytes at `off`.
pub open spec fn event_model_of(s: Seq<u8>, off: int) -> EventModel {
    EventModel {
        timestamp: u64_at(s, off),
        sequence: u64_at(s, off + 8),
        event_type: u16_at(s, off + 16),
        source_proc: s[off + 18],
        reserved: s[off + 19],
        payload_len: u16_at(s, off + 20),
        reserved2: Seq::new(2nat, |k: int| s[off + 22 + k]),
        payload: Seq::new(40nat, |k: int| s[off + 24 + k]),
    }
}

/// The queue of pending events spelled by a segment's bytes: one per
/// counter value from consumer to producer.
pub open spec fn pending_of(s: Seq<u8>) -> Seq<EventModel> {
    let p = prod_of(s);
    let c = cons_of(s);
    if c <= p {
        Seq::new((p - c) as nat, |i: int| event_model_of(s, slot_off((c + i) as u64)))
    } else {
        Seq::empty()
    }
}

/// Two counter values less than a capacity apart name distinct slots.
proof fn lemma_distinct_slots(x: u64, y: u64)
    requires
        x < y,
        y - x < RING_CAPACITY,
    ensures
        x % (RING_CAPACITY as u64) != y % (RING_CAPACITY as u64),
{
    assert(x < y && y - x < 65536 ==> x % 65536u64 != y % 65536u64) by (bit_vector);
}

/// Sequences that agree on an event's 64 bytes spell the same event.
proof fn lemma_event_agree(s1: Seq<u8>, s2: Seq<u8>, off: int)
    requires
        0 <= off,
        off + EVENT_SIZE <= s1.len(),
        off + EVENT_SIZE <= s2.len(),
        forall|j: int| off <= j < off + EVENT_SIZE ==> #[trigger] s1[j] == s2[j],
    ensures
        event_model_of(s1, off) == event_model_of(s2, off),
{
    assert(s1.subrange(off, off + 8) =~= s2.subrange(off, off + 8));
    lemma_le_at_n_agree(s1, s2, off, 8);
    assert(s1.subrange(off + 8, off + 16) =~= s2.subrange(off + 8, off + 16));
    lemma_le_at_n_agree(s1, s2, off + 8, 8);
    assert(s1.subrange(off + 16, off + 18) =~= s2.subrange(off + 16, off + 18));
    lemma_le_at_n_agree(s1, s2, off + 16, 2);
    assert(s1.subrange(off + 20, off + 22) =~= s2.subrange(off + 20, off + 22));
    lemma_le_at_n_agree(s1, s2, off + 20, 2);
    assert(event_model_of(s1, off).reserved2 =~= event_model_of(s2, off).reserved2);
    assert(event_model_of(s1, off).payload =~= event_model_of(s2, off).payload);
}

/// Sixty-four bytes that spell `em` decode to `em`.
proof fn lemma_event_decode(s: Seq<u8>, off: int, em: EventModel)
    requires
        0 <= off,
        off + EVENT_SIZE <= s.len(),
        em.reserved2.len() == 2,
        em.payload.len() == 40,
        s.subrange(off, off + EVENT_SIZE) == Seq::new(EVENT_SIZE as nat, |k: int| event_byte(em, k)),
    ensures
        event_model_of(s, off) == em,
{
    let enc = Seq::new(EVENT_SIZE as nat, |k: int| event_byte(em, k));
    assert forall|k: int| 0 <= k < EVENT_SIZE implies s[off + k] == event_byte(em, k) by {
        assert(s[off + k] == s.subrange(off, off + EVENT_SIZE)[k]);
        assert(s.subrange(off, off + EVENT_SIZE)[k] == enc[k]);
    }
    assert forall|k: int| 0 <= k < 8 implies 0 <= off + k < s.len() && s[off + k] == le_byte(
        em.timestamp,
        k,
    ) by {
        assert(s[off + k] == event_byte(em, k));
    }
    lemma_le_u64_roundtrip(s, off, em.timestamp);
    assert forall|k: int| 0 <= k < 8 implies 0 <= off + 8 + k < s.len() && s[off + 8 + k]
        == le_byte(em.sequence, k) by {
        assert(s[off + (8 + k)] == event_byte(em, 8 + k));
    }
    lemma_le_u64_roundtrip(s, off + 8, em.sequence);
    let et = em.event_type as u64;
    assert forall|k: int| 0 <= k < 2 implies 0 <= off + 16 + k < s.len() && s[off + 16 + k]
        == le_byte(et, k) by {
        assert(s[off + (16 + k)] == event_byte(em, 16 + k));
    }
    lemma_le_u16_roundtrip(s, off + 16, et);
    assert(s[off + 18] == event_byte(em, 18));
    assert(s[off + 19] == event_byte(em, 19));
    let pl = em.payload_len as u64;
    assert forall|k: int| 0 <= k < 2 implies 0 <= off + 20 + k < s.len() && s[off + 20 + k]
        == le_byte(pl, k) by {
        assert(s[off + (20 + k)] == event_byte(em, 20 + k));
    }
    lemma_le_u16_roundtrip(s, off + 20, pl);
    assert(event_model_of(s, off).reserved2 =~= em.reserved2) by {
        assert forall|k: int| 0 <= k < 2 implies s[off + 22 + k] == em.reserved2[k] by {
            assert(s[off + (22 + k)] == event_byte(em, 22 + k));
        }
    }
    assert(event_model_of(s, off).payload =~= em.payload) by {
        assert forall|k: int| 0 <= k < 40 implies s[off + 24 + k] == em.payload[k] by {
            assert(s[off + (24 + k)] == event_byte(em, 24 + k));
        }
    }
}

/// Write the 64-byte encoding of `e` at `off`; every byte outside it keeps
/// its value.
fn write_event(region: &mut Region, off: usize, e: &Event)
    requires
        off + EVENT_SIZE <= usize::MAX,
        off + EVENT_SIZE <= old(region)@.len(),
    ensures
        final(region)@.len() == old(region)@.len(),
        event_model_of(final(region)@, off as int) == e@,
        forall|j: int|
            0 <= j < final(region)@.len() && !(off <= j < off + EVENT_SIZE)
                ==> final(region)@[j] == old(region)@[j],
{
    region.write_le(off, 8, e.header.timestamp);
    region.write_le(off + 8, 8, e.header.sequence);
    region.write_le(off + 16, 2, e.header.event_type as u64);
    region.write_byte(off + 18, e.header.source_proc);
    region.write_byte(off + 19, e.header._reserved);
    region.write_le(off + 20, 2, e.header.payload_len as u64);
    region.write_byte(off + 22, e.header._reserved2[0]);
    region.write_byte(off + 23, e.header._reserved2[1]);
    let ghost pre_payload = region@;
    let mut k: usize = 0;
    while k < 40
        invariant
            k <= 40,
            off + EVENT_SIZE <= usize::MAX,
            off + EVENT_SIZE <= region@.len(),
            region@.len() == pre_payload.len(),
            forall|j: int|
                0 <= j < region@.len() ==> region@[j] == (if off + 24 <= j < off + 24 + k {
                    e.payload@[j - (off + 24)]
                } else {
                    pre_payload[j]
                }),
        decreases 40 - k,
    {
        write_payload_byte(region, off, k, e);
        k = k + 1;
    }
    proof {
        assert(region@.subrange(off as int, off + EVENT_SIZE) =~= Seq::new(
            EVENT_SIZE as nat,
            |j: int| event_byte(e@, j),
        ));
        lemma_event_decode(region@, off as int, e@);
    }
}

/// One payload byte of the encoding.
fn write_payload_byte(region: &mut Region, off: usize, k: usize, e: &Event)
    requires
        k < 40,
        off + EVENT_SIZE <= usize::MAX,
        off + EVENT_SIZE <= old(region)@.len(),
    ensures
        final(region)@ == old(region)@.update(off + 24 + k, e.payload@[k as int]),
{
    region.write_byte(off + 24 + k, e.payload[k]);
}

/// Read the event encoded at `off`.
fn read_event(region: &Region, off: usize) -> (e: Event)
    requires
        off + EVENT_SIZE <= usize::MAX,
        off + EVENT_SIZE <= region@.len(),
    ensures
        e@ == event_model_of(region@, off as int),
{
    let timestamp = region.read_u64(off);
    let sequence = region.read_u64(off + 8);
    let event_type = region.read_u16(off + 16);
    let source_proc = region.read_byte(off + 18);
    let reserved = region.read_byte(off + 19);
    let payload_len = region.read_u16(off + 20);
    let r2a = region.read_byte(off + 22);
    let r2b = region.read_byte(off + 23);
    let mut payload = [0u8; 40];
    let mut k: usize = 0;
    while k < 40
        invariant
            k <= 40,
            off + EVENT_SIZE <= usize::MAX,
            off + EVENT_SIZE <= region@.len(),
            payload@.len() == 40,
            forall|j: int| 0 <= j < k ==> payload@[j] == region@[off + 24 + j],
        decreases 40 - k,
    {
        payload[k] = region.read_byte(off + 24 + k);
        k = k + 1;
    }
    let e = Event {
        header: EventHeader {
            timestamp,
            sequence,
            event_type,
            source_proc,
            _reserved: reserved,
            payload_len,
            _reserved2: [r2a, r2b],
        },
        payload,
    };
    proof {
        assert(e@.reserved2 =~= event_model_of(region@, off as int).reserved2);
        assert(e@.payload =~= event_model_of(region@, off as int).payload);
    }
    e
}

/// Handle to a mapped ring segment.
pub struct RingBuffer {
    region: Region,
}

impl RingBuffer {
    pub closed spec fn wf(&self) -> bool {
        &&& self.region@.len() >= RING_SIZE
        &&& cons_of(self.region@) <= prod_of(self.region@)
        &&& prod_of(self.region@) - cons_of(self.region@) <= RING_CAPACITY
    }

    /// The producer counter: how many events were ever pushed.
    pub closed spec fn prod_spec(&self) -> u64 {
        prod_of(self.region@)
    }

    /// The consumer counter: how many events were ever popped.
    pub closed spec fn cons_spec(&self) -> u64 {
        cons_of(self.region@)
    }

    /// The queue of events pushed and not yet popped, oldest first.
    pub closed spec fn pending(&self) -> Seq<EventModel> {
        pending_of(self.region@)
    }

    /// Initialize a ring segment: zero it, so both counters start at zero
    /// and the queue is empty. Refuses a region too small for the layout.
    pub fn create(region: Region) -> (r: Result<RingBuffer, SegmentError>)
        ensures
            region@.len() >= RING_SIZE ==> (r matches Ok(b) && b.wf() && b.prod_spec() == 0
                && b.cons_spec() == 0 && b.pending() == Seq::<EventModel>::empty()),
            region@.len() < RING_SIZE ==> r == Err::<RingBuffer, SegmentError>(
                SegmentError::WrongSize,
            ),
    {
        let mut region = region;
        if region.len() < RING_SIZE {
            return Err(SegmentError::WrongSize);
        }
        region.fill_zero();
        proof {
            assert(region@.subrange(OFF_PRODUCER as int, OFF_PRODUCER + 8) =~= Seq::new(
                8nat,
                |i: int| 0u8,
            ));
            lemma_le_at_n_zero(region@, OFF_PRODUCER as int, 8);
            assert(region@.subrange(OFF_CONSUMER as int, OFF_CONSUMER + 8) =~= Seq::new(
                8nat,
                |i: int| 0u8,
            ));
            lemma_le_at_n_zero(region@, OFF_CONSUMER as int, 8);
            assert(pending_of(region@) =~= Seq::<EventModel>::empty());
        }
        Ok(RingBuffer { region })
    }

    /// Attach to an existing ring segment without touching its bytes.
    /// Refuses a region too small for the layout, and one whose header
    /// counters do not describe a queue within capacity.
    pub fn open(region: Region) -> (r: Result<RingBuffer, SegmentError>)
        ensures
            r matches Ok(b) ==> b.wf() && region@.len() >= RING_SIZE && b.prod_spec() == prod_of(
                region@,
            ) && b.cons_spec() == cons_of(region@) && b.pending() == pending_of(region@),
            r is Err <==> region@.len() < RING_SIZE || cons_of(region@) > prod_of(region@)
                || prod_of(region@) - cons_of(region@) > RING_CAPACITY,
    {
        if region.len() < RING_SIZE {
            return Err(SegmentError::WrongSize);
        }
        let prod = region.read_u64(OFF_PRODUCER);
        let cons = region.read_u64(OFF_CONSUMER);
        if cons > prod || prod - cons > RING_CAPACITY as u64 {
            return Err(SegmentError::BadCounters);
        }
        Ok(RingBuffer { region })
    }

    /// Hand the underlying region back, contents intact.
    pub fn into_region(self) -> (r: Region)
        requires
            self.wf(),
        ensures
            r@.len() >= RING_SIZE,
            prod_of(r@) == self.prod_spec(),
            cons_of(r@) == self.cons_spec(),
            pending_of(r@) == self.pending(),
    {
        self.region
    }

    /// The slots other than the one written keep their events when only
    /// that slot (and the header) changes.
    proof fn lemma_pending_slots_keep(pre: Seq<u8>, post: Seq<u8>, written: u64)
        requires
            pre.len() >= RING_SIZE,
            post.len() == pre.len(),
            forall|j: int|
                0 <= j < post.len() && !(slot_off(written) <= j < slot_off(written) + EVENT_SIZE)
                    && !(j < RING_HEADER) ==> post[j] == pre[j],
        ensures
            forall|c: u64|
                c % (RING_CAPACITY as u64) != written % (RING_CAPACITY as u64) ==> event_model_of(
                    post,
                    slot_off(c),
                ) == event_model_of(pre, slot_off(c)),
    {
        assert forall|c: u64|
            c % (RING_CAPACITY as u64) != written % (RING_CAPACITY as u64) implies event_model_of(
            post,
            slot_off(c),
        ) == event_model_of(pre, slot_off(c)) by {
            let off = slot_off(c);
            let woff = slot_off(written);
            assert(off + EVENT_SIZE <= woff || woff + EVENT_SIZE <= off);
            assert(post.subrange(off, off + EVENT_SIZE) =~= pre.subrange(off, off + EVENT_SIZE));
            lemma_event_agree(post, pre, off);
        }
    }

    /// Append an event if there is room. Returns false, and changes
    /// nothing, exactly when the buffer already holds `RING_CAPACITY`
    /// events.
    pub fn push(&mut self, event: &Event) -> (r: bool)
        requires
            old(self).wf(),
            old(self).prod_spec() < u64::MAX,
        ensures
            final(self).wf(),
            r == (old(self).pending().len() < RING_CAPACITY),
            r ==> final(self).prod_spec() == old(self).prod_spec() + 1 && final(self).cons_spec()
                == old(self).cons_spec() && final(self).pending() == old(self).pending().push(
                event@,
            ),
            !r ==> final(self).prod_spec() == old(self).prod_spec() && final(self).cons_spec()
                == old(self).cons_spec() && final(self).pending() == old(self).pending(),
    {
        let prod = self.region.read_u64(OFF_PRODUCER);
        let cons = self.region.read_u64(OFF_CONSUMER);
        if prod - cons >= RING_CAPACITY as u64 {
            return false;
        }
        let idx = (prod % (RING_CAPACITY as u64)) as usize;
        let off = RING_HEADER + idx * EVENT_SIZE;
        assert(off == slot_off(prod));
        write_event(&mut self.region, off, event);
        let ghost mid = self.region@;
        self.region.write_u64(OFF_PRODUCER, prod + 1);
        proof {
            let pre = old(self).region@;
            let post = self.region@;
            // Counters: the producer advanced; the consumer word lies in the
            // header, outside every slot and outside the producer word.
            assert(cons_of(mid) == cons_of(pre)) by {
                assert(mid.subrange(OFF_CONSUMER as int, OFF_CONSUMER + 8) =~= pre.subrange(
                    OFF_CONSUMER as int,
                    OFF_CONSUMER + 8,
                ));
                lemma_le_at_n_agree(mid, pre, OFF_CONSUMER as int, 8);
            }
            assert(cons_of(post) == cons_of(mid)) by {
                assert(post.subrange(OFF_CONSUMER as int, OFF_CONSUMER + 8) =~= mid.subrange(
                    OFF_CONSUMER as int,
                    OFF_CONSUMER + 8,
                ));
                lemma_le_at_n_agree(post, mid, OFF_CONSUMER as int, 8);
            }
            assert(prod_of(mid) == prod) by {
                assert(mid.subrange(OFF_PRODUCER as int, OFF_PRODUCER + 8) =~= pre.subrange(
                    OFF_PRODUCER as int,
                    OFF_PRODUCER + 8,
                ));
                lemma_le_at_n_agree(mid, pre, OFF_PRODUCER as int, 8);
            }
            // Old slots keep their events through both writes.
            Self::lemma_pending_slots_keep(pre, mid, prod);
            Self::lemma_pending_slots_keep(mid, post, prod);
            assert(event_model_of(post, slot_off(prod)) == event@) by {
                assert(post.subrange(slot_off(prod), slot_off(prod) + EVENT_SIZE) =~= mid.subrange(
                    slot_off(prod),
                    slot_off(prod) + EVENT_SIZE,
                ));
                lemma_event_agree(post, mid, slot_off(prod));
            }
            assert forall|i: int| 0 <= i < old(self).pending().len() implies old(self).pending()[i]
                == final(self).pending()[i] by {
                let c = (cons + i) as u64;
                lemma_distinct_slots(c, prod);
                assert(event_model_of(mid, slot_off(c)) == event_model_of(pre, slot_off(c)));
                assert(event_model_of(post, slot_off(c)) == event_model_of(mid, slot_off(c)));
            }
            assert(final(self).pending() =~= old(self).pending().push(event@));
        }
        true
    }

    /// Take the oldest pending event, if any. Returns `None`, and changes
    /// nothing, exactly when the buffer is empty.
    pub fn pop(&mut self) -> (r: Option<Event>)
        requires
            old(self).wf(),
        ensures
            final(self).wf(),
            old(self).pending().len() == 0 ==> r is None && final(self).prod_spec() == old(self).prod_spec() && final(self).cons_spec() == old(self).cons_spec() && final(self).pending() == old(self).pending(),
            old(self).pending().len() > 0 ==> (r matches Some(e) && e@ == old(self).pending()[0]
                && final(self).prod_spec() == old(self).prod_spec() && final(self).cons_spec()
                == old(self).cons_spec() + 1 && final(self).pending() == old(
                self,
            ).pending().subrange(1, old(self).pending().len() as int)),
    {
        let cons = self.region.read_u64(OFF_CONSUMER);
        let prod = self.region.read_u64(OFF_PRODUCER);
        if cons >= prod {
            return None;
        }
        let idx = (cons % (RING_CAPACITY as u64)) as usize;
        let off = RING_HEADER + idx * EVENT_SIZE;
        assert(off == slot_off(cons));
        let event = read_event(&self.region, off);
        self.region.write_u64(OFF_CONSUMER, cons + 1);
        proof {
            let pre = old(self).region@;
            let post = self.region@;
            assert(prod_of(post) == prod_of(pre)) by {
                assert(post.subrange(OFF_PRODUCER as int, OFF_PRODUCER + 8) =~= pre.subrange(
                    OFF_PRODUCER as int,
                    OFF_PRODUCER + 8,
                ));
                lemma_le_at_n_agree(post, pre, OFF_PRODUCER as int, 8);
            }
            assert forall|c: u64| true implies event_model_of(post, slot_off(c)) == event_model_of(
                pre,
                slot_off(c),
            ) by {
                let o = slot_off(c);
                assert(post.subrange(o, o + EVENT_SIZE) =~= pre.subrange(o, o + EVENT_SIZE));
                lemma_event_agree(post, pre, o);
            }
            assert(final(self).pending() =~= old(self).pending().subrange(
                1,
                old(self).pending().len() as int,
            ));
        }
        Some(event)
    }

    /// Number of pending events.
    pub fn len(&self) -> (r: usize)
        requires
            self.wf(),
        ensures
            r == self.pending().len(),
    {
        let prod = self.region.read_u64(OFF_PRODUCER);
        let cons = self.region.read_u64(OFF_CONSUMER);
        (prod - cons) as usize
    }

    pub fn is_empty(&self) -> (r: bool)
        requires
            self.wf(),
        ensures
            r == (self.pending().len() == 0),
    {
        self.len() == 0
    }

    pub fn capacity(&self) -> (r: usize)
        ensures
            r == RING_CAPACITY,
    {
        RING_CAPACITY
    }
}

/// First-in, first-out: a push onto a queue of pending events disturbs
/// none of them and lines up behind them, so pops — which always take the
/// front of the queue — return events in exactly the order they were
/// pushed.
pub proof fn lemma_ring_fifo(pending: Seq<EventModel>, e: EventModel)
    ensures
        pending.push(e).len() == pending.len() + 1,
        forall|i: int| 0 <= i < pending.len() ==> pending.push(e)[i] == pending[i],
        pending.push(e)[pending.len() as int] == e,
        pending.len() > 0 ==> pending.push(e).subrange(1, pending.len() as int + 1) == pending.subrange(
            1,
            pending.len() as int,
        ).push(e),
{
    if pending.len() > 0 {
        assert(pending.push(e).subrange(1, pending.len() as int + 1) =~= pending.subrange(
            1,
            pending.len() as int,
        ).push(e));
    }
}

} // verus!
