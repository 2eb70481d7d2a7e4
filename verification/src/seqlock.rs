//! The sequence-lock protocol over one price slot.
//!
//! A writer brackets its update: bump the counter to odd (write in flight),
//! store the payload, bump the counter to even (write complete). A reader
//! takes the counter, gives up on odd values, re-checks the counter after
//! reading, and retries a bounded number of times; it never blocks and
//! never returns a torn value.

use vstd::prelude::*;

use crate::types::{PriceDataEntry, PriceSeqEntry, PriceSnapshot};

verus! {

/// Bounded number of read attempts before giving up.
pub const MAX_READ_RETRIES: u32 = 4;

/// What a bounded-retry read of a quiescent slot yields: the payload when
/// the counter is stable (even), nothing while a write is in flight (odd).
pub open spec fn read_result(seq: u64, data: PriceDataEntry) -> Option<PriceSnapshot> {
    if seq % 2 == 0 {
        Some(
            PriceSnapshot {
                best_bid: data.best_bid,
                best_ask: data.best_ask,
                updated_at: data.updated_at,
            },
        )
    } else {
        None
    }
}

/// Write a snapshot under the protocol: counter to odd, payload, counter to
/// even. The counter advances by exactly two, so its parity is preserved.
pub fn seqlock_write(seq: &mut PriceSeqEntry, data: &mut PriceDataEntry, snapshot: &PriceSnapshot)
    requires
        old(seq).seq <= u64::MAX - 2,
    ensures
        final(seq).seq == old(seq).seq + 2,
        final(data).best_bid == snapshot.best_bid,
        final(data).best_ask == snapshot.best_ask,
        final(data).updated_at == snapshot.updated_at,
{
    let current = seq.seq;
    seq.seq = current + 1;
    data.best_bid = snapshot.best_bid;
    data.best_ask = snapshot.best_ask;
    data.updated_at = snapshot.updated_at;
    seq.seq = current + 2;
}

/// Read a snapshot under the protocol, with at most `MAX_READ_RETRIES`
/// attempts. On a slot no writer is touching, the outcome is decided by the
/// counter's parity alone.
pub fn seqlock_read(seq: &PriceSeqEntry, data: &PriceDataEntry) -> (r: Option<PriceSnapshot>)
    ensures
        r == read_result(seq.seq, *data),
{
    let mut attempts: u32 = 0;
    while attempts < MAX_READ_RETRIES
        invariant
            seq.seq % 2 == 0 ==> attempts == 0,
        decreases MAX_READ_RETRIES - attempts,
    {
        let s1 = seq.seq;
        proof {
            assert(s1 & 1 == s1 % 2) by (bit_vector);
        }
        if s1 & 1 != 0 {
            attempts = attempts + 1;
            continue ;
        }
        let bid = data.best_bid;
        let ask = data.best_ask;
        let ts = data.updated_at;
        let s2 = seq.seq;
        if s1 == s2 {
            return Some(PriceSnapshot { best_bid: bid, best_ask: ask, updated_at: ts });
        }
        attempts = attempts + 1;
    }
    None
}

/// Read only the sequence counter, for cheap staleness checks.
pub fn read_seq_only(seq: &PriceSeqEntry) -> (r: u64)
    ensures
        r == seq.seq,
{
    seq.seq
}

} // verus!
