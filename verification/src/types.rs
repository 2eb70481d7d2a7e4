//! Shared plain types: capacity constants, source identifiers, events, and
//! the price-slot records.
//!
//! Prices travel through this substrate as opaque 64-bit words (the bit
//! pattern of the producer's floating-point value): the store moves them,
//! it never does arithmetic on them. Callers that interpret prices convert
//! at the boundary.

use vstd::prelude::*;

use crate::bytes::{le_at_n, le_byte};

verus! {

/// Fixed capacity constants shared by every process that maps a segment.
pub const NUM_SOURCES: u8 = 8;

pub const MAX_SYMBOLS: u16 = 1024;

pub const MAX_DIRECTIONS: u8 = 12;

/// Why a segment handed to a component was refused.
#[derive(Clone, Copy, Debug, PartialEq, Eq, Structural)]
pub enum SegmentError {
    /// The region's byte count is not the one this component's layout needs.
    WrongSize,
    /// A validated header's magic word is not the expected one.
    BadMagic,
    /// A validated header carries an unsupported layout version.
    BadVersion,
    /// A ring header whose counters do not describe a queue within
    /// capacity.
    BadCounters,
}

// === Source identifiers ===

#[derive(Clone, Copy, Debug, PartialEq, Eq, Hash, Structural)]
pub enum SourceId {
    BinanceSpot,
    BinanceFutures,
    BybitSpot,
    BybitFutures,
    MexcSpot,
    MexcFutures,
    OkxSpot,
    OkxFutures,
}

impl SourceId {
    /// The fixed array index of this source.
    pub open spec fn index_spec(self) -> int {
        match self {
            SourceId::BinanceSpot => 0,
            SourceId::BinanceFutures => 1,
            SourceId::BybitSpot => 2,
            SourceId::BybitFutures => 3,
            SourceId::MexcSpot => 4,
            SourceId::MexcFutures => 5,
            SourceId::OkxSpot => 6,
            SourceId::OkxFutures => 7,
        }
    }

    pub fn index(self) -> (r: usize)
        ensures
            r == self.index_spec(),
            r < NUM_SOURCES,
    {
        match self {
            SourceId::BinanceSpot => 0,
            SourceId::BinanceFutures => 1,
            SourceId::BybitSpot => 2,
            SourceId::BybitFutures => 3,
            SourceId::MexcSpot => 4,
            SourceId::MexcFutures => 5,
            SourceId::OkxSpot => 6,
            SourceId::OkxFutures => 7,
        }
    }

    pub open spec fn is_spot_spec(self) -> bool {
        self == SourceId::BinanceSpot || self == SourceId::BybitSpot || self == SourceId::MexcSpot
            || self == SourceId::OkxSpot
    }

    pub fn is_spot(self) -> (r: bool)
        ensures
            r == self.is_spot_spec(),
    {
        match self {
            SourceId::BinanceSpot => true,
            SourceId::BybitSpot => true,
            SourceId::MexcSpot => true,
            SourceId::OkxSpot => true,
            _ => false,
        }
    }

    pub fn is_futures(self) -> (r: bool)
        ensures
            r == !self.is_spot_spec(),
    {
        !self.is_spot()
    }

    pub fn name(self) -> (r: &'static str)
        ensures
            self == SourceId::BinanceSpot ==> r@ == "binance_spot"@,
            self == SourceId::BinanceFutures ==> r@ == "binance_futures"@,
            self == SourceId::BybitSpot ==> r@ == "bybit_spot"@,
            self == SourceId::BybitFutures ==> r@ == "bybit_futures"@,
            self == SourceId::MexcSpot ==> r@ == "mexc_spot"@,
            self == SourceId::MexcFutures ==> r@ == "mexc_futures"@,
            self == SourceId::OkxSpot ==> r@ == "okx_spot"@,
            self == SourceId::OkxFutures ==> r@ == "okx_futures"@,
    {
        match self {
            SourceId::BinanceSpot => "binance_spot",
            SourceId::BinanceFutures => "binance_futures",
            SourceId::BybitSpot => "bybit_spot",
            SourceId::BybitFutures => "bybit_futures",
            SourceId::MexcSpot => "mexc_spot",
            SourceId::MexcFutures => "mexc_futures",
            SourceId::OkxSpot => "okx_spot",
            SourceId::OkxFutures => "okx_futures",
        }
    }

    /// The source with a given index, for indices below `NUM_SOURCES`.
    pub open spec fn from_u8_spec(v: u8) -> Option<SourceId> {
        if v == 0 {
            Some(SourceId::BinanceSpot)
        } else if v == 1 {
            Some(SourceId::BinanceFutures)
        } else if v == 2 {
            Some(SourceId::BybitSpot)
        } else if v == 3 {
            Some(SourceId::BybitFutures)
        } else if v == 4 {
            Some(SourceId::MexcSpot)
        } else if v == 5 {
            Some(SourceId::MexcFutures)
        } else if v == 6 {
            Some(SourceId::OkxSpot)
        } else if v == 7 {
            Some(SourceId::OkxFutures)
        } else {
            None
        }
    }

    pub fn from_u8(v: u8) -> (r: Option<SourceId>)
        ensures
            r == SourceId::from_u8_spec(v),
            r matches Some(s) ==> s.index_spec() == v,
            r is None <==> v >= NUM_SOURCES,
    {
        match v {
            0 => Some(SourceId::BinanceSpot),
            1 => Some(SourceId::BinanceFutures),
            2 => Some(SourceId::BybitSpot),
            3 => Some(SourceId::BybitFutures),
            4 => Some(SourceId::MexcSpot),
            5 => Some(SourceId::MexcFutures),
            6 => Some(SourceId::OkxSpot),
            7 => Some(SourceId::OkxFutures),
            _ => None,
        }
    }
}

// === Price slot records ===

/// One slot's sequence counter: even means stable, odd means a write is in
/// flight.
#[derive(Clone, Copy, Debug, PartialEq, Eq, Structural)]
pub struct PriceSeqEntry {
    pub seq: u64,
}

/// One slot's payload: best bid and ask as opaque 64-bit price words, and
/// the producer's timestamp.
#[derive(Clone, Copy, Debug, PartialEq, Eq, Structural)]
pub struct PriceDataEntry {
    pub best_bid: u64,
    pub best_ask: u64,
    pub updated_at: u64,
}

/// A plain snapshot handed back by a consistent read.
#[derive(Clone, Copy, Debug, PartialEq, Eq, Structural)]
pub struct PriceSnapshot {
    pub best_bid: u64,
    pub best_ask: u64,
    pub updated_at: u64,
}

impl Default for PriceSnapshot {
    fn default() -> (r: Self)
        ensures
            r.best_bid == 0,
            r.best_ask == 0,
            r.updated_at == 0,
    {
        PriceSnapshot { best_bid: 0, best_ask: 0, updated_at: 0 }
    }
}

// === Events ===

#[derive(Clone, Copy, Debug, PartialEq, Eq, Structural)]
pub enum EventType {
    SpreadSignal,
    TrackingSnapshot,
}

impl EventType {
    /// The wire code of this event type.
    pub open spec fn code_spec(self) -> u16 {
        match self {
            EventType::SpreadSignal => 1,
            EventType::TrackingSnapshot => 2,
        }
    }

    pub fn code(self) -> (r: u16)
        ensures
            r == self.code_spec(),
    {
        match self {
            EventType::SpreadSignal => 1,
            EventType::TrackingSnapshot => 2,
        }
    }

    pub open spec fn from_u16_spec(v: u16) -> Option<EventType> {
        if v == 1 {
            Some(EventType::SpreadSignal)
        } else if v == 2 {
            Some(EventType::TrackingSnapshot)
        } else {
            None
        }
    }

    pub fn from_u16(v: u16) -> (r: Option<EventType>)
        ensures
            r == EventType::from_u16_spec(v),
            r matches Some(t) ==> t.code_spec() == v,
    {
        match v {
            1 => Some(EventType::SpreadSignal),
            2 => Some(EventType::TrackingSnapshot),
            _ => None,
        }
    }
}

/// Fixed 24-byte event header, the same for every event type.
#[derive(Clone, Copy, Debug)]
pub struct EventHeader {
    pub timestamp: u64,
    pub sequence: u64,
    pub event_type: u16,
    pub source_proc: u8,
    pub _reserved: u8,
    pub payload_len: u16,
    pub _reserved2: [u8; 2],
}

/// Fixed 64-byte event: a 24-byte header and 40 opaque payload bytes.
#[derive(Clone, Copy, Debug)]
pub struct Event {
    pub header: EventHeader,
    pub payload: [u8; 40],
}

/// Abstract view of an event: the header fields and the payload bytes.
pub struct EventModel {
    pub timestamp: u64,
    pub sequence: u64,
    pub event_type: u16,
    pub source_proc: u8,
    pub reserved: u8,
    pub payload_len: u16,
    pub reserved2: Seq<u8>,
    pub payload: Seq<u8>,
}

impl View for Event {
    type V = EventModel;

    open spec fn view(&self) -> EventModel {
        EventModel {
            timestamp: self.header.timestamp,
            sequence: self.header.sequence,
            event_type: self.header.event_type,
            source_proc: self.header.source_proc,
            reserved: self.header._reserved,
            payload_len: self.header.payload_len,
            reserved2: self.header._reserved2@,
            payload: self.payload@,
        }
    }
}

/// Payload of a `SpreadSignal` event. The three price fields are opaque
/// 64-bit price words, as everywhere in this substrate.
#[derive(Clone, Copy, Debug)]
pub struct SignalPayload {
    pub symbol_id: u16,
    pub direction_id: u8,
    pub spot_source: u8,
    pub futures_source: u8,
    pub spot_ask: u64,
    pub futures_bid: u64,
    pub spread_pct: u64,
}

/// Bytes of the fixed 32-byte encoding of a signal payload within an
/// event's 40 payload bytes.
pub const SIGNAL_PAYLOAD_SIZE: usize = 32;

/// The `n`-byte little-endian value at `off` of an event payload.
fn payload_read_le(p: &[u8; 40], off: usize, n: usize) -> (v: u64)
    requires
        n <= 8,
        off + n <= 40,
    ensures
        v == le_at_n(p@, off as int, n as int),
{
    let mut v: u64 = 0;
    let mut i: usize = 0;
    while i < n
        invariant
            i <= n,
            n <= 8,
            off + n <= 40,
            v == le_at_n(p@, off as int, i as int),
        decreases n - i,
    {
        v = v | ((p[off + i] as u64) << (8 * (i as u64)));
        i = i + 1;
    }
    v
}

/// Write `v` as `n` little-endian bytes at `off` of an event payload.
fn payload_write_le(p: &mut [u8; 40], off: usize, n: usize, v: u64)
    requires
        n <= 8,
        off + n <= 40,
    ensures
        forall|j: int|
            0 <= j < 40 ==> final(p)@[j] == (if off <= j < off + n {
                le_byte(v, j - off)
            } else {
                old(p)@[j]
            }),
{
    let mut i: usize = 0;
    while i < n
        invariant
            i <= n,
            n <= 8,
            off + n <= 40,
            forall|j: int|
                0 <= j < 40 ==> p@[j] == (if off <= j < off + i {
                    le_byte(v, j - off)
                } else {
                    old(p)@[j]
                }),
        decreases n - i,
    {
        p[off + i] = ((v >> (8 * (i as u64))) as u8);
        assert(((v >> (8 * (i as u64))) as u8) == le_byte(v, i as int));
        i = i + 1;
    }
}

impl SignalPayload {
    /// Byte `k` of the fixed 32-byte encoding.
    pub open spec fn encoded_byte(self, k: int) -> u8 {
        if k < 2 {
            le_byte(self.symbol_id as u64, k)
        } else if k == 2 {
            self.direction_id
        } else if k == 3 {
            self.spot_source
        } else if k == 4 {
            self.futures_source
        } else if k < 8 {
            0u8
        } else if k < 16 {
            le_byte(self.spot_ask, k - 8)
        } else if k < 24 {
            le_byte(self.futures_bid, k - 16)
        } else {
            le_byte(self.spread_pct, k - 24)
        }
    }

    /// The payload spelled by an event's payload bytes.
    pub open spec fn decoded(p: Seq<u8>) -> SignalPayload {
        SignalPayload {
            symbol_id: le_at_n(p, 0, 2) as u16,
            direction_id: p[2],
            spot_source: p[3],
            futures_source: p[4],
            spot_ask: le_at_n(p, 8, 8),
            futures_bid: le_at_n(p, 16, 8),
            spread_pct: le_at_n(p, 24, 8),
        }
    }

    /// Write this payload's encoding into an event's payload bytes and
    /// record its length in the header; the header is otherwise untouched.
    pub fn write_to_event(&self, event: &mut Event)
        ensures
            forall|k: int|
                0 <= k < SIGNAL_PAYLOAD_SIZE ==> final(event).payload@[k] == self.encoded_byte(k),
            forall|k: int|
                SIGNAL_PAYLOAD_SIZE <= k < 40 ==> final(event).payload@[k] == old(
                    event,
                ).payload@[k],
            final(event).header == (EventHeader {
                payload_len: SIGNAL_PAYLOAD_SIZE as u16,
                ..old(event).header
            }),
    {
        payload_write_le(&mut event.payload, 0, 2, self.symbol_id as u64);
        payload_write_le(&mut event.payload, 2, 1, self.direction_id as u64);
        payload_write_le(&mut event.payload, 3, 1, self.spot_source as u64);
        payload_write_le(&mut event.payload, 4, 1, self.futures_source as u64);
        payload_write_le(&mut event.payload, 5, 3, 0);
        payload_write_le(&mut event.payload, 8, 8, self.spot_ask);
        payload_write_le(&mut event.payload, 16, 8, self.futures_bid);
        payload_write_le(&mut event.payload, 24, 8, self.spread_pct);
        event.header.payload_len = 32;
        proof {
            let d = self.direction_id;
            let sp = self.spot_source;
            let fu = self.futures_source;
            assert((d as u64 >> 0) as u8 == d) by (bit_vector);
            assert((sp as u64 >> 0) as u8 == sp) by (bit_vector);
            assert((fu as u64 >> 0) as u8 == fu) by (bit_vector);
            assert((0u64 >> 0) as u8 == 0u8 && (0u64 >> 8) as u8 == 0u8 && (0u64 >> 16) as u8
                == 0u8) by (bit_vector);
        }
    }

    /// Decode a signal payload from an event; succeeds exactly on events
    /// whose type is the spread signal and whose recorded payload length
    /// covers the encoding.
    pub fn from_event(event: &Event) -> (r: Option<SignalPayload>)
        ensures
            r is Some <==> event.header.event_type == EventType::SpreadSignal.code_spec()
                && event.header.payload_len >= SIGNAL_PAYLOAD_SIZE,
            r matches Some(sp) ==> sp == SignalPayload::decoded(event.payload@),
    {
        if event.header.event_type != EventType::SpreadSignal.code() {
            return None;
        }
        if event.header.payload_len < 32 {
            return None;
        }
        Some(
            SignalPayload {
                symbol_id: payload_read_le(&event.payload, 0, 2) as u16,
                direction_id: event.payload[2],
                spot_source: event.payload[3],
                futures_source: event.payload[4],
                spot_ask: payload_read_le(&event.payload, 8, 8),
                futures_bid: payload_read_le(&event.payload, 16, 8),
                spread_pct: payload_read_le(&event.payload, 24, 8),
            },
        )
    }
}

/// Maps a (source, symbol) slot to a direction and its counterpart source.
#[derive(Clone, Copy, Debug, PartialEq, Eq, Structural)]
pub struct DirectionEntry {
    pub direction_id: u8,
    pub counterpart_source: u8,
}

impl Default for DirectionEntry {
    fn default() -> (r: Self)
        ensures
            r.direction_id == 0,
            r.counterpart_source == 0,
    {
        DirectionEntry { direction_id: 0, counterpart_source: 0 }
    }
}

} // verus!
