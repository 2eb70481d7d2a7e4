//! Direction records and the flat per-(source, symbol) direction index
//! that the engine's hot path reads.

use vstd::prelude::*;

use crate::types::{DirectionEntry, NUM_SOURCES};

verus! {

/// Most directions any single (source, symbol) pair can take part in.
pub const MAX_DIRS_PER_SLOT: usize = 6;

/// One direction: a (spot source, futures source) pair and the symbols
/// listed on both.
#[derive(Clone, Debug)]
pub struct DirectionRecord {
    pub direction_id: u8,
    pub spot_source: u8,
    pub futures_source: u8,
    pub name: String,
    pub symbols: Vec<u16>,
}

/// The full set of directions, as loaded from the generated tables.
pub struct DirectionTable {
    pub records: Vec<DirectionRecord>,
}

/// The directions one (source, symbol) pair takes part in: a fixed-size
/// array of which the first `count` entries are meaningful.
#[derive(Clone, Copy, Debug)]
pub struct SourceSymbolDirections {
    pub entries: [DirectionEntry; 6],
    pub count: u8,
}

impl SourceSymbolDirections {
    pub open spec fn wf(self) -> bool {
        self.count <= MAX_DIRS_PER_SLOT
    }

    /// The meaningful entries, in insertion order.
    pub open spec fn view_entries(self) -> Seq<DirectionEntry> {
        self.entries@.take(self.count as int)
    }

    /// An empty slot.
    pub fn empty() -> (r: SourceSymbolDirections)
        ensures
            r.wf(),
            r.view_entries() == Seq::<DirectionEntry>::empty(),
    {
        let r = SourceSymbolDirections {
            entries: [DirectionEntry { direction_id: 0, counterpart_source: 0 };6],
            count: 0,
        };
        proof {
            assert(r.view_entries() =~= Seq::<DirectionEntry>::empty());
        }
        r
    }

    /// Append an entry; once the slot is full, further entries are dropped.
    pub fn push(&mut self, entry: DirectionEntry)
        requires
            old(self).wf(),
        ensures
            final(self).wf(),
            final(self).view_entries() == (if old(self).view_entries().len() < MAX_DIRS_PER_SLOT {
                old(self).view_entries().push(entry)
            } else {
                old(self).view_entries()
            }),
    {
        if (self.count as usize) < MAX_DIRS_PER_SLOT {
            self.entries[self.count as usize] = entry;
            self.count = self.count + 1;
            proof {
                assert(final(self).view_entries() =~= old(self).view_entries().push(entry));
            }
        }
    }
}

impl Default for SourceSymbolDirections {
    fn default() -> (r: Self)
        ensures
            r.wf(),
            r.view_entries() == Seq::<DirectionEntry>::empty(),
    {
        SourceSymbolDirections::empty()
    }
}

/// The spot-side entry a record contributes.
pub open spec fn spot_entry(rec: DirectionRecord) -> DirectionEntry {
    DirectionEntry { direction_id: rec.direction_id, counterpart_source: rec.futures_source }
}

/// The futures-side entry a record contributes.
pub open spec fn futures_entry(rec: DirectionRecord) -> DirectionEntry {
    DirectionEntry { direction_id: rec.direction_id, counterpart_source: rec.spot_source }
}

/// What one listed symbol `s` of record `rec` adds to the stream of entries
/// bound for slot (src, sym): the spot-side entry where the record's spot
/// source is `src` and `s` is `sym`, then the futures-side entry likewise.
pub open spec fn stream_after_sym(
    prev: Seq<DirectionEntry>,
    rec: DirectionRecord,
    s: u16,
    src: int,
    sym: int,
) -> Seq<DirectionEntry> {
    let p1 = if s == sym && rec.spot_source == src {
        prev.push(spot_entry(rec))
    } else {
        prev
    };
    if s == sym && rec.futures_source == src {
        p1.push(futures_entry(rec))
    } else {
        p1
    }
}

/// The stream after the first `j` listed symbols of `rec`.
pub open spec fn stream_after_syms(
    prev: Seq<DirectionEntry>,
    rec: DirectionRecord,
    j: int,
    src: int,
    sym: int,
) -> Seq<DirectionEntry>
    decreases j,
{
    if j <= 0 {
        prev
    } else {
        stream_after_sym(
            stream_after_syms(prev, rec, j - 1, src, sym),
            rec,
            rec.symbols@[j - 1],
            src,
            sym,
        )
    }
}

/// The stream after the first `k` records.
pub open spec fn stream_upto(
    records: Seq<DirectionRecord>,
    k: int,
    src: int,
    sym: int,
) -> Seq<DirectionEntry>
    decreases k,
{
    if k <= 0 {
        Seq::empty()
    } else {
        stream_after_syms(
            stream_upto(records, k - 1, src, sym),
            records[k - 1],
            records[k - 1].symbols@.len() as int,
            src,
            sym,
        )
    }
}

/// Every entry bound for slot (src, sym), in the order the build walks the
/// records and their symbol lists.
pub open spec fn index_stream(records: Seq<DirectionRecord>, src: int, sym: int) -> Seq<
    DirectionEntry,
> {
    stream_upto(records, records.len() as int, src, sym)
}

/// A slot keeps the first `MAX_DIRS_PER_SLOT` entries of its stream.
pub open spec fn cap_slot(s: Seq<DirectionEntry>) -> Seq<DirectionEntry> {
    if s.len() <= MAX_DIRS_PER_SLOT {
        s
    } else {
        s.take(MAX_DIRS_PER_SLOT as int)
    }
}

proof fn lemma_cap_slot_push(s: Seq<DirectionEntry>, e: DirectionEntry)
    ensures
        cap_slot(s.push(e)) == (if cap_slot(s).len() < MAX_DIRS_PER_SLOT {
            cap_slot(s).push(e)
        } else {
            cap_slot(s)
        }),
{
    if s.len() < MAX_DIRS_PER_SLOT {
        assert(cap_slot(s.push(e)) =~= cap_slot(s).push(e));
    } else {
        assert(cap_slot(s.push(e)) =~= cap_slot(s));
    }
}

/// Flat slot indices are unique per (source, symbol) pair.
proof fn lemma_flat_index_unique(ns: int, a: int, b: int, c: int, d: int)
    requires
        0 < ns,
        0 <= a,
        0 <= c,
        0 <= b < ns,
        0 <= d < ns,
        !(a == c && b == d),
    ensures
        a * ns + b != c * ns + d,
{
    assert(a * ns + b != c * ns + d) by (nonlinear_arith)
        requires
            0 < ns,
            0 <= a,
            0 <= c,
            0 <= b < ns,
            0 <= d < ns,
            !(a == c && b == d),
    ;
}

/// A flat slot index lies within the table.
proof fn lemma_flat_index_bound(ns: int, src: int, sym: int)
    requires
        0 < ns,
        0 <= src < NUM_SOURCES,
        0 <= sym < ns,
    ensures
        0 <= src * ns,
        src * ns + sym < 8 * ns,
        src * ns + sym < (NUM_SOURCES as int) * ns,
{
    assert(0 <= src * ns && src * ns + sym < 8 * ns) by (nonlinear_arith)
        requires
            0 < ns,
            0 <= src < 8,
            0 <= sym < ns,
    ;
    assert((NUM_SOURCES as int) * ns == 8 * ns);
}

/// Flat lookup table: index = source * num_symbols + symbol.
pub struct SourceSymbolIndex {
    lookup: Vec<SourceSymbolDirections>,
    num_symbols: u16,
}

impl SourceSymbolIndex {
    pub closed spec fn wf(&self) -> bool {
        &&& self.lookup@.len() == (NUM_SOURCES as int) * (self.num_symbols as int)
        &&& forall|i: int| 0 <= i < self.lookup@.len() ==> (#[trigger] self.lookup@[i]).wf()
    }

    pub closed spec fn num_symbols_spec(&self) -> u16 {
        self.num_symbols
    }

    /// The slot of (source, symbol).
    pub closed spec fn slot_spec(&self, src: int, sym: int) -> SourceSymbolDirections {
        self.lookup@[src * (self.num_symbols as int) + sym]
    }

    /// Build the index from a direction table: for each record and each of
    /// its symbols, file the spot-side entry under (spot source, symbol) and
    /// the futures-side entry under (futures source, symbol), keeping the
    /// first `MAX_DIRS_PER_SLOT` entries per slot.
    pub fn build(directions: &DirectionTable, num_symbols: u16) -> (r: SourceSymbolIndex)
        requires
            forall|k: int|
                0 <= k < directions.records@.len() ==> (#[trigger] directions.records@[k]).spot_source
                    < NUM_SOURCES && directions.records@[k].futures_source < NUM_SOURCES && forall|
                    j: int,
                |
                    0 <= j < directions.records@[k].symbols@.len()
                        ==> #[trigger] directions.records@[k].symbols@[j] < num_symbols,
        ensures
            r.wf(),
            r.num_symbols_spec() == num_symbols,
            forall|src: int, sym: int|
                0 <= src < NUM_SOURCES && 0 <= sym < num_symbols ==> (#[trigger] r.slot_spec(
                    src,
                    sym,
                )).view_entries() == cap_slot(index_stream(directions.records@, src, sym)),
    {
        let ns = num_symbols as usize;
        let total = 8 * ns;
        assert(total == (NUM_SOURCES as int) * (num_symbols as int));
        let mut lookup: Vec<SourceSymbolDirections> = Vec::new();
        let mut t: usize = 0;
        while t < total
            invariant
                t <= total,
                lookup@.len() == t,
                forall|i: int|
                    0 <= i < t ==> (#[trigger] lookup@[i]).wf() && lookup@[i].view_entries()
                        == Seq::<DirectionEntry>::empty(),
            decreases total - t,
        {
            lookup.push(SourceSymbolDirections::empty());
            t = t + 1;
        }
        let records = &directions.records;
        let ghost rs = records@;
        proof {
            assert forall|src: int, sym: int|
                0 <= src < NUM_SOURCES && 0 <= sym < num_symbols implies (#[trigger] lookup@[src * (
            num_symbols as int) + sym]).wf() && lookup@[src * (num_symbols as int)
                + sym].view_entries() == cap_slot(stream_upto(rs, 0, src, sym)) by {
                lemma_flat_index_bound(num_symbols as int, src, sym);
            }
        }
        let mut k: usize = 0;
        while k < records.len()
            invariant
                ns == num_symbols as usize,
                k <= rs.len(),
                rs == records@,
                forall|k2: int|
                    0 <= k2 < rs.len() ==> (#[trigger] rs[k2]).spot_source < NUM_SOURCES
                        && rs[k2].futures_source < NUM_SOURCES && forall|j: int|
                        0 <= j < rs[k2].symbols@.len() ==> #[trigger] rs[k2].symbols@[j]
                            < num_symbols,
                lookup@.len() == (NUM_SOURCES as int) * (num_symbols as int),
                forall|i: int| 0 <= i < lookup@.len() ==> (#[trigger] lookup@[i]).wf(),
                forall|src: int, sym: int|
                    0 <= src < NUM_SOURCES && 0 <= sym < num_symbols ==> (#[trigger] lookup@[src * (
                    num_symbols as int) + sym]).wf() && lookup@[src * (num_symbols as int)
                        + sym].view_entries() == cap_slot(stream_upto(rs, k as int, src, sym)),
            decreases records.len() - k,
        {
            let mut j: usize = 0;
            while j < records[k].symbols.len()
                invariant
                    ns == num_symbols as usize,
                    k < rs.len(),
                    rs == records@,
                    j <= rs[k as int].symbols@.len(),
                    rs[k as int].spot_source < NUM_SOURCES,
                    rs[k as int].futures_source < NUM_SOURCES,
                    forall|j2: int|
                        0 <= j2 < rs[k as int].symbols@.len() ==> #[trigger] rs[k as int].symbols@[j2]
                            < num_symbols,
                    lookup@.len() == (NUM_SOURCES as int) * (num_symbols as int),
                    forall|i: int| 0 <= i < lookup@.len() ==> (#[trigger] lookup@[i]).wf(),
                    forall|src: int, sym: int|
                        0 <= src < NUM_SOURCES && 0 <= sym < num_symbols ==> (#[trigger] lookup@[src
                            * (num_symbols as int) + sym]).wf() && lookup@[src * (num_symbols as int)
                            + sym].view_entries() == cap_slot(
                            stream_after_syms(
                                stream_upto(rs, k as int, src, sym),
                                rs[k as int],
                                j as int,
                                src,
                                sym,
                            ),
                        ),
                decreases records[k as int].symbols@.len() - j,
            {
                let symbol_id = records[k].symbols[j];
                let ghost pre = lookup@;
                proof {
                    lemma_flat_index_bound(
                        num_symbols as int,
                        rs[k as int].spot_source as int,
                        symbol_id as int,
                    );
                    lemma_flat_index_bound(
                        num_symbols as int,
                        rs[k as int].futures_source as int,
                        symbol_id as int,
                    );
                }
                let spot_idx = records[k].spot_source as usize * ns + symbol_id as usize;
                let mut slot = lookup[spot_idx];
                slot.push(
                    DirectionEntry {
                        direction_id: records[k].direction_id,
                        counterpart_source: records[k].futures_source,
                    },
                );
                lookup[spot_idx] = slot;
                let ghost mid = lookup@;
                proof {
                    Self::lemma_one_push(pre, mid, rs, k as int, j as int, num_symbols as int, true);
                }
                let fut_idx = records[k].futures_source as usize * ns + symbol_id as usize;
                let mut slot2 = lookup[fut_idx];
                slot2.push(
                    DirectionEntry {
                        direction_id: records[k].direction_id,
                        counterpart_source: records[k].spot_source,
                    },
                );
                lookup[fut_idx] = slot2;
                proof {
                    Self::lemma_one_push(
                        mid,
                        lookup@,
                        rs,
                        k as int,
                        j as int,
                        num_symbols as int,
                        false,
                    );
                    assert forall|src: int, sym: int|
                        0 <= src < NUM_SOURCES && 0 <= sym < num_symbols implies stage_stream(
                        rs,
                        k as int,
                        j as int,
                        src,
                        sym,
                        2,
                    ) == stream_after_syms(
                        stream_upto(rs, k as int, src, sym),
                        rs[k as int],
                        j + 1,
                        src,
                        sym,
                    ) by {
                        assert(stream_after_syms(
                            stream_upto(rs, k as int, src, sym),
                            rs[k as int],
                            j + 1,
                            src,
                            sym,
                        ) == stream_after_sym(
                            stream_after_syms(
                                stream_upto(rs, k as int, src, sym),
                                rs[k as int],
                                j as int,
                                src,
                                sym,
                            ),
                            rs[k as int],
                            rs[k as int].symbols@[j as int],
                            src,
                            sym,
                        ));
                    }
                }
                j = j + 1;
            }
            proof {
                assert forall|src: int, sym: int|
                    0 <= src < NUM_SOURCES && 0 <= sym < num_symbols implies stream_after_syms(
                    stream_upto(rs, k as int, src, sym),
                    rs[k as int],
                    rs[k as int].symbols@.len() as int,
                    src,
                    sym,
                ) == stream_upto(rs, k + 1, src, sym) by {
                    assert(stream_upto(rs, k + 1, src, sym) == stream_after_syms(
                        stream_upto(rs, k as int, src, sym),
                        rs[k as int],
                        rs[k as int].symbols@.len() as int,
                        src,
                        sym,
                    ));
                }
            }
            k = k + 1;
        }
                SourceSymbolIndex { lookup, num_symbols }
    }

    /// One push of the build: filing the spot-side (`spot` true) or the
    /// futures-side entry of symbol `j` of record `k` moves every slot's
    /// contents one stage forward.
    proof fn lemma_one_push(
        pre: Seq<SourceSymbolDirections>,
        post: Seq<SourceSymbolDirections>,
        rs: Seq<DirectionRecord>,
        k: int,
        j: int,
        ns: int,
        spot: bool,
    )
        requires
            0 < ns,
            0 <= k < rs.len(),
            0 <= j < rs[k].symbols@.len(),
            rs[k].spot_source < NUM_SOURCES,
            rs[k].futures_source < NUM_SOURCES,
            rs[k].symbols@[j] < ns,
            pre.len() == (NUM_SOURCES as int) * ns,
            post.len() == pre.len(),
            forall|src: int, sym: int|
                0 <= src < NUM_SOURCES && 0 <= sym < ns ==> (#[trigger] pre[src * ns + sym]).wf()
                    && pre[src * ns + sym].view_entries() == cap_slot(
                    stage_stream(
                        rs,
                        k,
                        j,
                        src,
                        sym,
                        if spot {
                            0
                        } else {
                            1
                        },
                    ),
                ),
            ({
                let rec = rs[k];
                let s = rs[k].symbols@[j];
                let idx = if spot {
                    rec.spot_source * ns + s
                } else {
                    rec.futures_source * ns + s
                };
                let e = if spot {
                    spot_entry(rec)
                } else {
                    futures_entry(rec)
                };
                &&& post[idx].wf()
                &&& post[idx].view_entries() == (if pre[idx].view_entries().len()
                    < MAX_DIRS_PER_SLOT {
                    pre[idx].view_entries().push(e)
                } else {
                    pre[idx].view_entries()
                })
                &&& forall|i: int| 0 <= i < post.len() && i != idx ==> post[i] == pre[i]
            }),
        ensures
            forall|src: int, sym: int|
                0 <= src < NUM_SOURCES && 0 <= sym < ns ==> (#[trigger] post[src * ns + sym]).wf()
                    && post[src * ns + sym].view_entries() == cap_slot(
                    stage_stream(
                        rs,
                        k,
                        j,
                        src,
                        sym,
                        if spot {
                            1
                        } else {
                            2
                        },
                    ),
                ),
    {
        let rec = rs[k];
        let s = rs[k].symbols@[j];
        let tsrc = if spot {
            rec.spot_source as int
        } else {
            rec.futures_source as int
        };
        let idx = tsrc * ns + s;
        let e = if spot {
            spot_entry(rec)
        } else {
            futures_entry(rec)
        };
        let pre_stage: int = if spot {
            0
        } else {
            1
        };
        let post_stage: int = if spot {
            1
        } else {
            2
        };
        assert forall|src: int, sym: int|
            0 <= src < NUM_SOURCES && 0 <= sym < ns implies (#[trigger] post[src * ns + sym]).wf()
            && post[src * ns + sym].view_entries() == cap_slot(
            stage_stream(rs, k, j, src, sym, post_stage),
        ) by {
            let i = src * ns + sym;
            lemma_flat_index_bound(ns, src, sym);
            lemma_flat_index_bound(ns, tsrc, s as int);
            if src == tsrc && sym == s {
                assert(stage_stream(rs, k, j, src, sym, post_stage) == stage_stream(
                    rs,
                    k,
                    j,
                    src,
                    sym,
                    pre_stage,
                ).push(e));
                lemma_cap_slot_push(stage_stream(rs, k, j, src, sym, pre_stage), e);
            } else {
                lemma_flat_index_unique(ns, src, sym, tsrc, s as int);
                assert(post[i] == pre[i]);
                assert(stage_stream(rs, k, j, src, sym, post_stage) == stage_stream(
                    rs,
                    k,
                    j,
                    src,
                    sym,
                    pre_stage,
                ));
            }
        }
    }

    /// All directions involving (source, symbol).
    pub fn get(&self, source: u8, symbol_id: u16) -> (r: &SourceSymbolDirections)
        requires
            self.wf(),
            source < NUM_SOURCES,
            symbol_id < self.num_symbols_spec(),
        ensures
            *r == self.slot_spec(source as int, symbol_id as int),
            r.wf(),
    {
        proof {
            lemma_flat_index_bound(self.num_symbols as int, source as int, symbol_id as int);
        }
        let idx = source as usize * self.num_symbols as usize + symbol_id as usize;
        &self.lookup[idx]
    }

    pub fn num_symbols(&self) -> (r: u16)
        ensures
            r == self.num_symbols_spec(),
    {
        self.num_symbols
    }
}

/// The stream for slot (src, sym) while symbol `j` of record `k` is being
/// filed: at stage 0 neither side is in yet, at stage 1 the spot side is
/// in, at stage 2 both are.
pub open spec fn stage_stream(
    rs: Seq<DirectionRecord>,
    k: int,
    j: int,
    src: int,
    sym: int,
    stage: int,
) -> Seq<DirectionEntry> {
    let s0 = stream_after_syms(stream_upto(rs, k, src, sym), rs[k], j, src, sym);
    let s1 = if stage >= 1 && rs[k].symbols@[j] == sym && rs[k].spot_source == src {
        s0.push(spot_entry(rs[k]))
    } else {
        s0
    };
    if stage >= 2 && rs[k].symbols@[j] == sym && rs[k].futures_source == src {
        s1.push(futures_entry(rs[k]))
    } else {
        s1
    }
}

} // verus!
