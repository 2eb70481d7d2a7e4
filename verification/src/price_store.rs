//! Price Store — split seq/data regions of per-(symbol, source) slots.
//!
//! Two parallel segments with identical shape: a 64-byte header {magic,
//! version, num_symbols} followed by `MAX_SYMBOLS * NUM_SOURCES` slots of
//! 64 bytes, indexed by `symbol_id * NUM_SOURCES + source_id`. One segment
//! holds each slot's sequence counter, the other its payload, so the lock
//! metadata and the prices never share a cache line.

use vstd::prelude::*;

use crate::bytes::{lemma_le_at_n_agree, lemma_le_at_n_zero, u16_at, u32_at, u64_at};
use crate::region::Region;
use crate::seqlock;
use crate::seqlock::read_result;
use crate::types::{
    PriceDataEntry, PriceSeqEntry, PriceSnapshot, SegmentError, MAX_SYMBOLS, NUM_SOURCES,
};

verus! {

/// Bytes of header before the first slot.
pub const STORE_HEADER: usize = 64;

/// Bytes per slot.
pub const SLOT_SIZE: usize = 64;

/// Size of each of the two segments in bytes.
pub const STORE_SIZE: usize = STORE_HEADER + 1024 * 8 * SLOT_SIZE;

/// Magic word of the sequence segment's header.
pub const MAGIC_SEQS: u32 = 0x53455153;

/// Magic word of the data segment's header.
pub const MAGIC_DATA: u32 = 0x44415441;

/// Layout version both headers carry.
pub const LAYOUT_VERSION: u32 = 1;

/// Byte offset of the slot of (symbol, source).
pub open spec fn slot_off(sym: int, src: int) -> int {
    STORE_HEADER + (sym * 8 + src) * SLOT_SIZE
}

pub open spec fn magic_of(s: Seq<u8>) -> u32 {
    u32_at(s, 0)
}

pub open spec fn version_of(s: Seq<u8>) -> u32 {
    u32_at(s, 4)
}

pub open spec fn num_symbols_of(s: Seq<u8>) -> u16 {
    u16_at(s, 8)
}

/// The sequence counter spelled by the seq segment for one slot.
pub open spec fn seq_of(s: Seq<u8>, sym: int, src: int) -> u64 {
    u64_at(s, slot_off(sym, src))
}

/// The payload spelled by the data segment for one slot.
pub open spec fn data_of(s: Seq<u8>, sym: int, src: int) -> PriceDataEntry {
    PriceDataEntry {
        best_bid: u64_at(s, slot_off(sym, src)),
        best_ask: u64_at(s, slot_off(sym, src) + 8),
        updated_at: u64_at(s, slot_off(sym, src) + 16),
    }
}

/// Handle to a mapped pair of price segments.
pub struct PriceStore {
    seqs: Region,
    data: Region,
}

impl PriceStore {
    pub closed spec fn wf(&self) -> bool {
        self.seqs@.len() >= STORE_SIZE && self.data@.len() >= STORE_SIZE
    }

    /// The sequence counter of one slot.
    pub closed spec fn seq_spec(&self, sym: int, src: int) -> u64 {
        seq_of(self.seqs@, sym, src)
    }

    /// The stored payload of one slot.
    pub closed spec fn data_spec(&self, sym: int, src: int) -> PriceDataEntry {
        data_of(self.data@, sym, src)
    }

    /// The symbol count recorded in the headers at creation.
    pub closed spec fn num_symbols_spec(&self) -> u16 {
        num_symbols_of(self.seqs@)
    }

    /// Initialize both segments: zero them, then write a validated header
    /// into each. Every slot starts with an even (stable) counter of zero
    /// and an all-zero payload. Refuses regions too small for the layout.
    pub fn create(seqs: Region, data: Region, num_symbols: u16) -> (r: Result<
        PriceStore,
        SegmentError,
    >)
        ensures
            seqs@.len() >= STORE_SIZE && data@.len() >= STORE_SIZE ==> (r matches Ok(st)
                && st.wf() && st.num_symbols_spec() == num_symbols && magic_of(st.seqs_bytes())
                == MAGIC_SEQS && version_of(st.seqs_bytes()) == LAYOUT_VERSION && magic_of(
                st.data_bytes(),
            ) == MAGIC_DATA && version_of(st.data_bytes()) == LAYOUT_VERSION && num_symbols_of(
                st.data_bytes(),
            ) == num_symbols && forall|sym: int, src: int|
                0 <= sym < MAX_SYMBOLS && 0 <= src < NUM_SOURCES ==> st.seq_spec(sym, src) == 0
                    && st.data_spec(sym, src) == (PriceDataEntry {
                    best_bid: 0,
                    best_ask: 0,
                    updated_at: 0,
                })),
            !(seqs@.len() >= STORE_SIZE && data@.len() >= STORE_SIZE) ==> r == Err::<
                PriceStore,
                SegmentError,
            >(SegmentError::WrongSize),
    {
        let mut seqs = seqs;
        let mut data = data;
        if seqs.len() < STORE_SIZE || data.len() < STORE_SIZE {
            return Err(SegmentError::WrongSize);
        }
        seqs.fill_zero();
        seqs.write_u32(0, MAGIC_SEQS);
        let ghost old_seqs_magic = seqs@;
        seqs.write_u32(4, LAYOUT_VERSION);
        let ghost old_seqs_version = seqs@;
        seqs.write_u16(8, num_symbols);
        data.fill_zero();
        data.write_u32(0, MAGIC_DATA);
        let ghost old_data_magic = data@;
        data.write_u32(4, LAYOUT_VERSION);
        let ghost old_data_version = data@;
        data.write_u16(8, num_symbols);
        let store = PriceStore { seqs, data };
        proof {
            // The version and symbol-count stores touch bytes 4..10, so the
            // magic word at 0..4 keeps the value just written; the symbol
            // count at 8..10 leaves the version at 4..8 alone.
            Self::lemma_header_words(old_seqs_magic, old_seqs_version, store.seqs@);
            Self::lemma_header_words(old_data_magic, old_data_version, store.data@);
            assert(forall|j: int|
                STORE_HEADER <= j < STORE_SIZE ==> #[trigger] store.seqs@[j] == 0);
            assert(forall|j: int|
                STORE_HEADER <= j < STORE_SIZE ==> #[trigger] store.data@[j] == 0);
            assert forall|sym: int, src: int|
                0 <= sym < MAX_SYMBOLS && 0 <= src < NUM_SOURCES implies store.seq_spec(sym, src)
                == 0 && store.data_spec(sym, src) == (PriceDataEntry {
                best_bid: 0,
                best_ask: 0,
                updated_at: 0,
            }) by {
                let off = slot_off(sym, src);
                assert(STORE_HEADER <= off && off + SLOT_SIZE <= STORE_SIZE);
                assert(store.seqs@.subrange(off, off + 8) =~= Seq::new(8nat, |i: int| 0u8));
                lemma_le_at_n_zero(store.seqs@, off, 8);
                assert(store.data@.subrange(off, off + 8) =~= Seq::new(8nat, |i: int| 0u8));
                lemma_le_at_n_zero(store.data@, off, 8);
                assert(store.data@.subrange(off + 8, off + 16) =~= Seq::new(8nat, |i: int| 0u8));
                lemma_le_at_n_zero(store.data@, off + 8, 8);
                assert(store.data@.subrange(off + 16, off + 24) =~= Seq::new(8nat, |i: int| 0u8));
                lemma_le_at_n_zero(store.data@, off + 16, 8);
            }
        }
        Ok(store)
    }

    /// Writes confined to bytes 4..10 keep the magic word; a write
    /// confined to bytes 8..10 keeps the version word.
    proof fn lemma_header_words(after_magic: Seq<u8>, after_version: Seq<u8>, post: Seq<u8>)
        requires
            after_magic.len() >= 10,
            after_version.len() == after_magic.len(),
            post.len() == after_version.len(),
            forall|j: int|
                0 <= j < after_version.len() && !(4 <= j < 8) ==> after_version[j]
                    == after_magic[j],
            forall|j: int| 0 <= j < post.len() && !(8 <= j < 10) ==> post[j] == after_version[j],
        ensures
            magic_of(post) == magic_of(after_magic),
            version_of(post) == version_of(after_version),
    {
        assert(post.subrange(0, 4) =~= after_magic.subrange(0, 4));
        lemma_le_at_n_agree(post, after_magic, 0, 4);
        assert(post.subrange(4, 8) =~= after_version.subrange(4, 8));
        lemma_le_at_n_agree(post, after_version, 4, 4);
    }

    /// Attach to an existing pair of price segments, validating size and
    /// both headers; a mismatch means another process laid the segments out
    /// differently and is fatal to the caller.
    pub fn open(seqs: Region, data: Region) -> (r: Result<PriceStore, SegmentError>)
        ensures
            r matches Ok(st) ==> st.wf() && seqs@.len() >= STORE_SIZE && data@.len() >= STORE_SIZE
                && magic_of(seqs@) == MAGIC_SEQS && version_of(seqs@) == LAYOUT_VERSION
                && magic_of(data@) == MAGIC_DATA && version_of(data@) == LAYOUT_VERSION
                && st.num_symbols_spec() == num_symbols_of(seqs@) && (forall|sym: int, src: int|
                0 <= sym < MAX_SYMBOLS && 0 <= src < NUM_SOURCES ==> st.seq_spec(sym, src)
                    == seq_of(seqs@, sym, src) && st.data_spec(sym, src) == data_of(
                    data@,
                    sym,
                    src,
                )),
            r is Err <==> seqs@.len() < STORE_SIZE || data@.len() < STORE_SIZE || magic_of(seqs@)
                != MAGIC_SEQS || version_of(seqs@) != LAYOUT_VERSION || magic_of(data@)
                != MAGIC_DATA || version_of(data@) != LAYOUT_VERSION,
    {
        if seqs.len() < STORE_SIZE || data.len() < STORE_SIZE {
            return Err(SegmentError::WrongSize);
        }
        if seqs.read_u32(0) != MAGIC_SEQS {
            return Err(SegmentError::BadMagic);
        }
        if seqs.read_u32(4) != LAYOUT_VERSION {
            return Err(SegmentError::BadVersion);
        }
        if data.read_u32(0) != MAGIC_DATA {
            return Err(SegmentError::BadMagic);
        }
        if data.read_u32(4) != LAYOUT_VERSION {
            return Err(SegmentError::BadVersion);
        }
        Ok(PriceStore { seqs, data })
    }

    /// Hand both regions back (sequence segment first), contents intact:
    /// the bytes, and so the headers and every slot, are exactly the
    /// store's.
    pub fn into_regions(self) -> (r: (Region, Region))
        requires
            self.wf(),
        ensures
            r.0@.len() >= STORE_SIZE,
            r.1@.len() >= STORE_SIZE,
            r.0@ == self.seqs_bytes(),
            r.1@ == self.data_bytes(),
            num_symbols_of(r.0@) == self.num_symbols_spec(),
            forall|sym: int, src: int|
                0 <= sym < MAX_SYMBOLS && 0 <= src < NUM_SOURCES ==> seq_of(r.0@, sym, src)
                    == self.seq_spec(sym, src) && data_of(r.1@, sym, src) == self.data_spec(
                    sym,
                    src,
                ),
    {
        (self.seqs, self.data)
    }

    /// The raw bytes of the sequence segment.
    pub closed spec fn seqs_bytes(&self) -> Seq<u8> {
        self.seqs@
    }

    /// The raw bytes of the data segment.
    pub closed spec fn data_bytes(&self) -> Seq<u8> {
        self.data@
    }

    /// Symbol count from the header.
    pub fn num_symbols(&self) -> (r: u16)
        requires
            self.wf(),
        ensures
            r == self.num_symbols_spec(),
    {
        self.seqs.read_u16(8)
    }

    /// Byte offset of the slot of (symbol, source).
    fn slot_offset(symbol_id: u16, source_id: u8) -> (off: usize)
        requires
            symbol_id < MAX_SYMBOLS,
            source_id < NUM_SOURCES,
        ensures
            off == slot_off(symbol_id as int, source_id as int),
            STORE_HEADER <= off,
            off + SLOT_SIZE <= STORE_SIZE,
    {
        STORE_HEADER + (symbol_id as usize * 8 + source_id as usize) * SLOT_SIZE
    }

    /// Distinct (symbol, source) pairs own disjoint slots.
    proof fn lemma_slots_disjoint(s1: int, c1: int, s2: int, c2: int)
        requires
            0 <= s1 < MAX_SYMBOLS,
            0 <= c1 < NUM_SOURCES,
            0 <= s2 < MAX_SYMBOLS,
            0 <= c2 < NUM_SOURCES,
            !(s1 == s2 && c1 == c2),
        ensures
            slot_off(s1, c1) + SLOT_SIZE <= slot_off(s2, c2) || slot_off(s2, c2) + SLOT_SIZE
                <= slot_off(s1, c1),
    {
        assert(s1 * 8 + c1 != s2 * 8 + c2) by (nonlinear_arith)
            requires
                0 <= s1 < MAX_SYMBOLS,
                0 <= c1 < NUM_SOURCES,
                0 <= s2 < MAX_SYMBOLS,
                0 <= c2 < NUM_SOURCES,
                !(s1 == s2 && c1 == c2),
        ;
    }

    /// Every slot other than the written one keeps its bytes' meaning when
    /// only that slot changes.
    proof fn lemma_other_slots_keep(pre: Seq<u8>, post: Seq<u8>, sym: int, src: int)
        requires
            pre.len() >= STORE_SIZE,
            post.len() == pre.len(),
            0 <= sym < MAX_SYMBOLS,
            0 <= src < NUM_SOURCES,
            forall|j: int|
                0 <= j < post.len() && !(slot_off(sym, src) <= j < slot_off(sym, src) + SLOT_SIZE)
                    ==> post[j] == pre[j],
        ensures
            forall|s2: int, c2: int|
                0 <= s2 < MAX_SYMBOLS && 0 <= c2 < NUM_SOURCES && !(s2 == sym && c2 == src)
                    ==> seq_of(post, s2, c2) == seq_of(pre, s2, c2) && data_of(post, s2, c2)
                    == data_of(pre, s2, c2),
            num_symbols_of(post) == num_symbols_of(pre),
            magic_of(post) == magic_of(pre),
            version_of(post) == version_of(pre),
    {
        assert forall|s2: int, c2: int|
            0 <= s2 < MAX_SYMBOLS && 0 <= c2 < NUM_SOURCES && !(s2 == sym && c2 == src) implies
            seq_of(post, s2, c2) == seq_of(pre, s2, c2) && data_of(post, s2, c2) == data_of(
            pre,
            s2,
            c2,
        ) by {
            let off = slot_off(s2, c2);
            Self::lemma_slots_disjoint(s2, c2, sym, src);
            assert(post.subrange(off, off + 8) =~= pre.subrange(off, off + 8));
            lemma_le_at_n_agree(post, pre, off, 8);
            assert(post.subrange(off + 8, off + 16) =~= pre.subrange(off + 8, off + 16));
            lemma_le_at_n_agree(post, pre, off + 8, 8);
            assert(post.subrange(off + 16, off + 24) =~= pre.subrange(off + 16, off + 24));
            lemma_le_at_n_agree(post, pre, off + 16, 8);
        }
        assert(post.subrange(0, 10) =~= pre.subrange(0, 10));
        assert(post.subrange(8, 10) =~= pre.subrange(8, 10));
        lemma_le_at_n_agree(post, pre, 8, 2);
        assert(post.subrange(0, 4) =~= pre.subrange(0, 4));
        lemma_le_at_n_agree(post, pre, 0, 4);
        assert(post.subrange(4, 8) =~= pre.subrange(4, 8));
        lemma_le_at_n_agree(post, pre, 4, 4);
    }

    /// Publish a price update for (symbol, source) under the protocol:
    /// counter to odd, payload stores, counter to even. Touches nothing
    /// outside the one slot.
    pub fn write(&mut self, symbol_id: u16, source_id: u8, snapshot: &PriceSnapshot)
        requires
            old(self).wf(),
            symbol_id < MAX_SYMBOLS,
            source_id < NUM_SOURCES,
            old(self).seq_spec(symbol_id as int, source_id as int) <= u64::MAX - 2,
        ensures
            final(self).wf(),
            final(self).seq_spec(symbol_id as int, source_id as int) == old(self).seq_spec(
                symbol_id as int,
                source_id as int,
            ) + 2,
            final(self).data_spec(symbol_id as int, source_id as int) == (PriceDataEntry {
                best_bid: snapshot.best_bid,
                best_ask: snapshot.best_ask,
                updated_at: snapshot.updated_at,
            }),
            forall|s2: int, c2: int|
                0 <= s2 < MAX_SYMBOLS && 0 <= c2 < NUM_SOURCES && !(s2 == symbol_id && c2
                    == source_id) ==> final(self).seq_spec(s2, c2) == old(self).seq_spec(s2, c2)
                    && final(self).data_spec(s2, c2) == old(self).data_spec(s2, c2),
            final(self).num_symbols_spec() == old(self).num_symbols_spec(),
            magic_of(final(self).seqs_bytes()) == magic_of(old(self).seqs_bytes()),
            version_of(final(self).seqs_bytes()) == version_of(old(self).seqs_bytes()),
            magic_of(final(self).data_bytes()) == magic_of(old(self).data_bytes()),
            version_of(final(self).data_bytes()) == version_of(old(self).data_bytes()),
            num_symbols_of(final(self).data_bytes()) == num_symbols_of(old(self).data_bytes()),
    {
        let off = Self::slot_offset(symbol_id, source_id);
        let current = self.seqs.read_u64(off);
        self.seqs.write_u64(off, current + 1);
        self.data.write_u64(off, snapshot.best_bid);
        let ghost d_bid = self.data@;
        self.data.write_u64(off + 8, snapshot.best_ask);
        let ghost d_ask = self.data@;
        self.data.write_u64(off + 16, snapshot.updated_at);
        self.seqs.write_u64(off, current + 2);
        proof {
            let sym = symbol_id as int;
            let src = source_id as int;
            let o = slot_off(sym, src);
            // The final payload: the ask store and the timestamp store left
            // the bid bytes alone, and the timestamp store left the ask
            // bytes alone.
            assert(u64_at(self.data@, o) == snapshot.best_bid) by {
                assert(self.data@.subrange(o, o + 8) =~= d_bid.subrange(o, o + 8));
                lemma_le_at_n_agree(self.data@, d_bid, o, 8);
            }
            assert(u64_at(self.data@, o + 8) == snapshot.best_ask) by {
                assert(self.data@.subrange(o + 8, o + 16) =~= d_ask.subrange(o + 8, o + 16));
                lemma_le_at_n_agree(self.data@, d_ask, o + 8, 8);
            }
            // Other slots and the headers: the seq segment changed only in
            // this slot's 8 counter bytes; the data segment only in this
            // slot's 24 payload bytes.
            Self::lemma_other_slots_keep(old(self).seqs@, self.seqs@, sym, src);
            Self::lemma_other_slots_keep(old(self).data@, self.data@, sym, src);
        }
    }

    /// Read a consistent snapshot of (symbol, source) with bounded retries,
    /// by handing the slot's counter and payload to the protocol reader.
    /// On a slot no writer is touching, the outcome is decided by the
    /// counter's parity alone: a stable (even) counter yields the payload.
    pub fn read(&self, symbol_id: u16, source_id: u8) -> (r: Option<PriceSnapshot>)
        requires
            self.wf(),
            symbol_id < MAX_SYMBOLS,
            source_id < NUM_SOURCES,
        ensures
            r == read_result(
                self.seq_spec(symbol_id as int, source_id as int),
                self.data_spec(symbol_id as int, source_id as int),
            ),
    {
        let off = Self::slot_offset(symbol_id, source_id);
        let seq_entry = PriceSeqEntry { seq: self.seqs.read_u64(off) };
        let data_entry = PriceDataEntry {
            best_bid: self.data.read_u64(off),
            best_ask: self.data.read_u64(off + 8),
            updated_at: self.data.read_u64(off + 16),
        };
        seqlock::seqlock_read(&seq_entry, &data_entry)
    }

    /// Read only the sequence counter of (symbol, source), for staleness
    /// checks without touching the payload.
    pub fn read_seq(&self, symbol_id: u16, source_id: u8) -> (r: u64)
        requires
            self.wf(),
            symbol_id < MAX_SYMBOLS,
            source_id < NUM_SOURCES,
        ensures
            r == self.seq_spec(symbol_id as int, source_id as int),
    {
        let off = Self::slot_offset(symbol_id, source_id);
        self.seqs.read_u64(off)
    }
}

/// Round trip: after a write that finds a stable (even) counter, a read of
/// the same slot yields exactly the snapshot written. The write moves the
/// counter from `seq0` to `seq0 + 2`, which is again even, and leaves the
/// written payload in place, so `read_result` returns it.
pub proof fn lemma_write_read_round_trip(seq0: u64, snap: PriceSnapshot)
    requires
        seq0 % 2 == 0,
        seq0 <= u64::MAX - 2,
    ensures
        read_result(
            (seq0 + 2) as u64,
            PriceDataEntry {
                best_bid: snap.best_bid,
                best_ask: snap.best_ask,
                updated_at: snap.updated_at,
            },
        ) == Some(snap),
{
}

} // verus!
