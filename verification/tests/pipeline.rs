//! Tests of the plain types, the seqlock protocol, the direction index,
//! and the discovery bookkeeping.

use std::collections::HashSet;

use spread_shm::config::{ExchangeEntry, ExchangesConfig};
use spread_shm::directions::{DirectionRecord, DirectionTable, SourceSymbolIndex};
use spread_shm::discovery::{
    build_ws_urls, empty_result, expected_sources, source_from_exchange_market, str_eq,
    trust_rest_result, build_result, Exchange, InvalidReason, Market, SymbolSub,
};
use spread_shm::seqlock::{read_seq_only, seqlock_read, seqlock_write};
use spread_shm::types::{
    Event, EventHeader, EventType, PriceDataEntry, PriceSeqEntry, PriceSnapshot, SignalPayload,
    SourceId,
};

fn make_seq_entry() -> PriceSeqEntry {
    PriceSeqEntry { seq: 0 }
}

fn make_data_entry() -> PriceDataEntry {
    PriceDataEntry { best_bid: 0, best_ask: 0, updated_at: 0 }
}

#[test]
fn test_source_id() {
    assert_eq!(SourceId::BinanceSpot.index(), 0);
    assert_eq!(SourceId::OkxFutures.index(), 7);
    assert!(SourceId::BinanceSpot.is_spot());
    assert!(SourceId::BinanceFutures.is_futures());
    assert_eq!(SourceId::from_u8(0), Some(SourceId::BinanceSpot));
    assert_eq!(SourceId::from_u8(8), None);
}

#[test]
fn test_source_id_names() {
    assert_eq!(SourceId::MexcFutures.name(), "mexc_futures");
    assert_eq!(SourceId::OkxSpot.name(), "okx_spot");
    assert_eq!(Exchange::Binance.name(), "binance");
    assert_eq!(Market::Futures.name(), "futures");
}

#[test]
fn test_event_type_from_u16() {
    assert_eq!(EventType::from_u16(1), Some(EventType::SpreadSignal));
    assert_eq!(EventType::from_u16(2), Some(EventType::TrackingSnapshot));
    assert_eq!(EventType::from_u16(0), None);
    assert_eq!(EventType::from_u16(3), None);
    assert_eq!(EventType::SpreadSignal.code(), 1);
}

#[test]
fn test_single_thread_write_read() {
    let mut seq = make_seq_entry();
    let mut data = make_data_entry();

    let snap = PriceSnapshot {
        best_bid: 50000.0f64.to_bits(),
        best_ask: 50001.0f64.to_bits(),
        updated_at: 12345,
    };

    seqlock_write(&mut seq, &mut data, &snap);
    let result = seqlock_read(&seq, &data).unwrap();
    assert!((f64::from_bits(result.best_bid) - 50000.0).abs() < f64::EPSILON);
    assert!((f64::from_bits(result.best_ask) - 50001.0).abs() < f64::EPSILON);
    assert_eq!(result.updated_at, 12345);

    // Seq should be 2 after one write
    assert_eq!(seq.seq, 2);
}

#[test]
fn test_multiple_writes() {
    let mut seq = make_seq_entry();
    let mut data = make_data_entry();

    for i in 1..=100u64 {
        let snap = PriceSnapshot {
            best_bid: (i as f64).to_bits(),
            best_ask: ((i + 1) as f64).to_bits(),
            updated_at: i,
        };
        seqlock_write(&mut seq, &mut data, &snap);
        let result = seqlock_read(&seq, &data).unwrap();
        assert!((f64::from_bits(result.best_bid) - i as f64).abs() < f64::EPSILON);
    }

    assert_eq!(seq.seq, 200);
}

#[test]
fn test_read_seq_only() {
    let mut seq = make_seq_entry();
    assert_eq!(read_seq_only(&seq), 0);

    seq.seq = 42;
    assert_eq!(read_seq_only(&seq), 42);
}

#[test]
fn test_seqlock_read_odd_seq_gives_none() {
    let seq = PriceSeqEntry { seq: 1 };
    let data = make_data_entry();
    assert!(seqlock_read(&seq, &data).is_none());
}

#[test]
fn test_signal_payload_roundtrip() {
    let signal = SignalPayload {
        symbol_id: 42,
        direction_id: 3,
        spot_source: 6,
        futures_source: 5,
        spot_ask: 50000.5f64.to_bits(),
        futures_bid: 50100.0f64.to_bits(),
        spread_pct: 0.199f64.to_bits(),
    };

    let mut event = Event {
        header: EventHeader {
            timestamp: 12345,
            sequence: 1,
            event_type: EventType::SpreadSignal.code(),
            source_proc: 0,
            _reserved: 0,
            payload_len: 0,
            _reserved2: [0; 2],
        },
        payload: [0u8; 40],
    };

    signal.write_to_event(&mut event);
    assert_eq!(event.header.payload_len, 32);
    let decoded = SignalPayload::from_event(&event).unwrap();

    assert_eq!(decoded.symbol_id, 42);
    assert_eq!(decoded.direction_id, 3);
    assert!((f64::from_bits(decoded.spot_ask) - 50000.5).abs() < f64::EPSILON);
    assert!((f64::from_bits(decoded.spread_pct) - 0.199).abs() < f64::EPSILON);
}

#[test]
fn test_signal_payload_rejects_other_events() {
    let mut event = Event {
        header: EventHeader {
            timestamp: 0,
            sequence: 0,
            event_type: EventType::TrackingSnapshot.code(),
            source_proc: 0,
            _reserved: 0,
            payload_len: 40,
            _reserved2: [0; 2],
        },
        payload: [0u8; 40],
    };
    assert!(SignalPayload::from_event(&event).is_none());
    event.header.event_type = EventType::SpreadSignal.code();
    event.header.payload_len = 16;
    assert!(SignalPayload::from_event(&event).is_none());
}

#[test]
fn test_source_symbol_index_build() {
    let directions = DirectionTable {
        records: vec![
            DirectionRecord {
                direction_id: 0,
                spot_source: 6, // OKX Spot
                futures_source: 5, // MEXC Futures
                name: "okx_spot_mexc_futures".to_string(),
                symbols: vec![0, 1, 2],
            },
            DirectionRecord {
                direction_id: 1,
                spot_source: 6, // OKX Spot
                futures_source: 3, // Bybit Futures
                name: "okx_spot_bybit_futures".to_string(),
                symbols: vec![0, 1],
            },
        ],
    };

    let index = SourceSymbolIndex::build(&directions, 10);

    // OKX Spot (6), symbol 0 should have 2 directions (dir 0 and dir 1)
    let dirs = index.get(6, 0);
    assert_eq!(dirs.count, 2);
    assert_eq!(dirs.entries[0].direction_id, 0);
    assert_eq!(dirs.entries[0].counterpart_source, 5);
    assert_eq!(dirs.entries[1].direction_id, 1);
    assert_eq!(dirs.entries[1].counterpart_source, 3);

    // MEXC Futures (5), symbol 0 should have 1 direction (dir 0)
    let dirs = index.get(5, 0);
    assert_eq!(dirs.count, 1);
    assert_eq!(dirs.entries[0].direction_id, 0);
    assert_eq!(dirs.entries[0].counterpart_source, 6);

    // Bybit Futures (3), symbol 2 should have 0 directions
    let dirs = index.get(3, 2);
    assert_eq!(dirs.count, 0);
}

#[test]
fn test_source_symbol_index_cap() {
    // More directions than a slot can hold: only the first six stay.
    let mut records = Vec::new();
    for d in 0..8u8 {
        records.push(DirectionRecord {
            direction_id: d,
            spot_source: 0,
            futures_source: 1,
            name: format!("direction_{}", d),
            symbols: vec![0],
        });
    }
    let index = SourceSymbolIndex::build(&DirectionTable { records }, 4);
    let dirs = index.get(0, 0);
    assert_eq!(dirs.count, 6);
    for d in 0..6u8 {
        assert_eq!(dirs.entries[d as usize].direction_id, d);
    }
    assert_eq!(index.num_symbols(), 4);
}

#[test]
fn test_str_eq() {
    assert!(str_eq("binance", "binance"));
    assert!(!str_eq("binance", "bybit"));
    assert!(!str_eq("okx", "okxx"));
    assert!(str_eq("", ""));
}

#[test]
fn test_source_from_exchange_market() {
    assert_eq!(
        source_from_exchange_market("binance", false),
        Some(SourceId::BinanceSpot)
    );
    assert_eq!(
        source_from_exchange_market("binance", true),
        Some(SourceId::BinanceFutures)
    );
    assert_eq!(
        source_from_exchange_market("okx", true),
        Some(SourceId::OkxFutures)
    );
    assert_eq!(source_from_exchange_market("kraken", false), None);
}

fn entry(name: &str) -> ExchangeEntry {
    ExchangeEntry {
        name: name.to_string(),
        rest_spot: format!("https://{}.example/rest-spot", name),
        rest_futures: format!("https://{}.example/rest-futures", name),
        ws_spot: format!("wss://{}.example/spot", name),
        ws_futures: format!("wss://{}.example/futures", name),
        max_ws_subscriptions: 200,
        instruments_path_spot: "/instruments".to_string(),
        instruments_path_futures: "/instruments-futures".to_string(),
    }
}

#[test]
fn test_expected_sources() {
    let exchanges = vec![entry("binance"), entry("okx")];
    let out = expected_sources(&exchanges).unwrap();
    assert_eq!(out.len(), 4);
    assert_eq!(out[0].0, SourceId::BinanceSpot);
    assert_eq!(out[1].0, SourceId::BinanceFutures);
    assert_eq!(out[0].1, "binance");
    assert_eq!(out[2].0, SourceId::OkxSpot);
    assert_eq!(out[3].0, SourceId::OkxFutures);

    let bad = vec![entry("binance"), entry("kraken")];
    assert!(expected_sources(&bad).is_none());
}

#[test]
fn test_build_ws_urls() {
    let cfg = ExchangesConfig {
        exchange: vec![entry("binance"), entry("bybit"), entry("okx"), entry("mexc")],
    };
    let urls = build_ws_urls(&cfg).unwrap();
    assert_eq!(urls.len(), 8);
    assert_eq!(urls[0].0, SourceId::BinanceSpot);
    assert_eq!(urls[0].1, "wss://binance.example/spot");
    assert_eq!(urls[1].1, "wss://binance.example/futures");
    assert_eq!(urls[4].0, SourceId::MexcSpot);
    assert_eq!(urls[4].1, "wss://mexc.example/spot");
    assert_eq!(urls[7].0, SourceId::OkxFutures);
    assert_eq!(urls[7].1, "wss://okx.example/futures");

    let missing = ExchangesConfig { exchange: vec![entry("binance"), entry("bybit")] };
    assert!(build_ws_urls(&missing).is_none());
}

fn subs() -> Vec<SymbolSub> {
    vec![
        SymbolSub { symbol_id: 1, exchange_name: "BTCUSDT".to_string() },
        SymbolSub { symbol_id: 2, exchange_name: "ETHUSDT".to_string() },
        SymbolSub { symbol_id: 3, exchange_name: "SOLUSDT".to_string() },
    ]
}

#[test]
fn test_empty_result() {
    let r = empty_result(4, &subs());
    assert_eq!(r.source_id, 4);
    assert_eq!(r.total, 3);
    assert!(r.valid.is_empty());
    assert_eq!(r.invalid.len(), 3);
    assert_eq!(r.invalid[0].symbol_id, 1);
    assert_eq!(r.invalid[0].exchange_name, "BTCUSDT");
    assert_eq!(r.invalid[0].reason, InvalidReason::NoResponse);
    assert_eq!(r.invalid[2].symbol_id, 3);
}

#[test]
fn test_build_result() {
    let mut received: HashSet<u16> = HashSet::new();
    received.insert(2);
    let r = build_result(6, &subs(), received);
    assert_eq!(r.total, 3);
    assert!(r.valid.contains(&2));
    assert!(!r.valid.contains(&1));
    assert_eq!(r.invalid.len(), 2);
    assert_eq!(r.invalid[0].symbol_id, 1);
    assert_eq!(r.invalid[1].symbol_id, 3);
    assert_eq!(r.invalid[1].reason, InvalidReason::NoResponse);
}

#[test]
fn test_trust_rest_result() {
    let r = trust_rest_result(5, &subs());
    assert_eq!(r.source_id, 5);
    assert_eq!(r.total, 3);
    assert!(r.invalid.is_empty());
    assert!(r.valid.contains(&1));
    assert!(r.valid.contains(&2));
    assert!(r.valid.contains(&3));
    assert_eq!(r.valid.len(), 3);
    assert_eq!(InvalidReason::ProtobufSkipped.describe(), "ProtobufSkipped");
}
