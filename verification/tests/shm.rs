//! Tests of the five shared-memory components over anonymous regions.

use spread_shm::bitmap::UpdateBitmap;
use spread_shm::control::{ControlStore, CONTROL_SIZE};
use spread_shm::health::{HealthTable, ProcessStatus, HEALTH_SIZE};
use spread_shm::price_store::{PriceStore, STORE_SIZE};
use spread_shm::region::Region;
use spread_shm::ring_buffer::{RingBuffer, RING_SIZE};
use spread_shm::types::{Event, EventHeader, EventType, PriceSnapshot, SegmentError};

fn region(len: usize) -> Region {
    Region::new_zeroed(len).expect("anonymous mapping")
}

fn make_event(seq: u64) -> Event {
    Event {
        header: EventHeader {
            timestamp: seq * 100,
            sequence: seq,
            event_type: EventType::SpreadSignal.code(),
            source_proc: 0,
            _reserved: 0,
            payload_len: 0,
            _reserved2: [0; 2],
        },
        payload: [0u8; 40],
    }
}

#[test]
fn test_region_read_write() {
    let mut r = region(16);
    assert_eq!(r.len(), 16);
    for i in 0..16 {
        assert_eq!(r.read_byte(i), 0);
    }
    r.write_byte(3, 0xAB);
    assert_eq!(r.read_byte(3), 0xAB);
    assert_eq!(r.read_byte(2), 0);
    assert_eq!(r.read_byte(4), 0);
    r.write_u64(8, 0x1122334455667788);
    assert_eq!(r.read_u64(8), 0x1122334455667788);
    assert_eq!(r.read_byte(8), 0x88);
    assert_eq!(r.read_byte(15), 0x11);
}

#[test]
fn test_bitmap_set_and_swap() {
    let mut bm = UpdateBitmap::create(region(1024)).unwrap();

    // Initially no updates
    assert!(!bm.has_updates(0));

    // Set symbol 0 on source 0
    bm.set(0, 0);
    assert!(bm.has_updates(0));

    // Set symbol 63 (last bit of first word) and symbol 64 (first bit of second word)
    bm.set(0, 63);
    bm.set(0, 64);

    // Swap first word — should get bits 0 and 63
    let w0 = bm.swap_word(0, 0);
    assert_eq!(w0, (1u64 << 0) | (1u64 << 63));

    // Swap second word — should get bit 0 (= symbol 64)
    let w1 = bm.swap_word(0, 1);
    assert_eq!(w1, 1u64 << 0);

    // After swap, no more updates
    assert!(!bm.has_updates(0));

    // Different sources are independent
    bm.set(3, 100);
    assert!(!bm.has_updates(0));
    assert!(bm.has_updates(3));
}

#[test]
fn test_bitmap_wrong_size() {
    assert!(matches!(
        UpdateBitmap::create(region(100)),
        Err(SegmentError::WrongSize)
    ));
    assert!(matches!(
        UpdateBitmap::open(region(1000)),
        Err(SegmentError::WrongSize)
    ));
    // A larger region is accepted.
    let bm = UpdateBitmap::open(region(2048)).unwrap();
    assert!(!bm.has_updates(0));
}

#[test]
fn test_control_store() {
    let mut ctrl = ControlStore::create(region(CONTROL_SIZE)).unwrap();

    // Defaults
    assert!(!ctrl.is_paused());
    assert!(!ctrl.is_killed());
    assert!(!ctrl.is_shutdown());
    assert_eq!(ctrl.config_version(), 0);
    assert!(!ctrl.should_stop());

    // Set flags
    ctrl.set_pause(true);
    assert!(ctrl.is_paused());

    ctrl.set_kill_switch(true);
    assert!(ctrl.is_killed());
    assert!(ctrl.should_stop());

    ctrl.set_kill_switch(false);
    assert!(!ctrl.should_stop());

    // Config version
    let v = ctrl.increment_config_version();
    assert_eq!(v, 1);
    assert_eq!(ctrl.config_version(), 1);
}

#[test]
fn test_control_store_reopen() {
    let mut ctrl = ControlStore::create(region(CONTROL_SIZE)).unwrap();
    ctrl.set_pause(true);
    ctrl.set_config_version(42);

    let saved = ctrl.into_region();
    let ctrl = ControlStore::open(saved).unwrap();
    assert!(ctrl.is_paused());
    assert_eq!(ctrl.config_version(), 42);
}

#[test]
fn test_control_flags_independent() {
    let mut ctrl = ControlStore::create(region(CONTROL_SIZE)).unwrap();
    ctrl.set_shutdown(true);
    assert!(!ctrl.is_paused());
    assert!(!ctrl.is_killed());
    assert!(ctrl.is_shutdown());
    assert!(ctrl.should_stop());
    let v1 = ctrl.increment_config_version();
    let v2 = ctrl.increment_config_version();
    assert_eq!(v1, 1);
    assert_eq!(v2, 2);
    assert!(ctrl.is_shutdown());
}

#[test]
fn test_open_accepts_larger_segment() {
    // A segment larger than the layout is accepted, as long as the headers
    // (where there are any) check out.
    let mut ctrl = ControlStore::create(region(CONTROL_SIZE + 100)).unwrap();
    ctrl.set_config_version(7);
    let ctrl = ControlStore::open(ctrl.into_region()).unwrap();
    assert_eq!(ctrl.config_version(), 7);

    let store = PriceStore::create(region(STORE_SIZE + 4096), region(STORE_SIZE), 20).unwrap();
    let (seqs, data) = store.into_regions();
    let store = PriceStore::open(seqs, data).unwrap();
    assert_eq!(store.num_symbols(), 20);
}

#[test]
fn test_control_wrong_size() {
    assert!(matches!(
        ControlStore::create(region(64)),
        Err(SegmentError::WrongSize)
    ));
}

#[test]
fn test_health_table() {
    let mut ht = HealthTable::create(region(HEALTH_SIZE)).unwrap();

    ht.set_status(0, ProcessStatus::Running);
    ht.heartbeat(0, 1234567890);
    ht.inc_msg_count(0);
    ht.inc_msg_count(0);
    ht.inc_error_count(0);

    let snap = ht.read(0);
    assert_eq!(snap.status, ProcessStatus::Running);
    assert_eq!(snap.heartbeat_us, 1234567890);
    assert_eq!(snap.msg_count, 2);
    assert_eq!(snap.error_count, 1);

    // Slot 1 should be default
    let snap1 = ht.read(1);
    assert_eq!(snap1.status, ProcessStatus::Unknown);
    assert_eq!(snap1.msg_count, 0);
}

#[test]
fn test_health_read_all_and_reopen() {
    let mut ht = HealthTable::create(region(HEALTH_SIZE)).unwrap();
    ht.set_ws_connections(2, 5);
    ht.set_uptime(2, 77);
    let all = ht.read_all();
    assert_eq!(all.len(), 16);
    assert_eq!(all[2].ws_connections, 5);
    assert_eq!(all[2].uptime_sec, 77);
    assert_eq!(all[3].ws_connections, 0);
    assert_eq!(ht.num_slots(), 16);

    let ht = HealthTable::open(ht.into_region()).unwrap();
    let snap = ht.read(2);
    assert_eq!(snap.ws_connections, 5);
    assert_eq!(snap.uptime_sec, 77);
}

#[test]
fn test_process_status_from_u8() {
    assert_eq!(ProcessStatus::from_u8(0), ProcessStatus::Unknown);
    assert_eq!(ProcessStatus::from_u8(1), ProcessStatus::Starting);
    assert_eq!(ProcessStatus::from_u8(2), ProcessStatus::Running);
    assert_eq!(ProcessStatus::from_u8(3), ProcessStatus::Degraded);
    assert_eq!(ProcessStatus::from_u8(4), ProcessStatus::Stopped);
    assert_eq!(ProcessStatus::from_u8(200), ProcessStatus::Unknown);
}

#[test]
fn test_ring_buffer_push_pop() {
    let mut rb = RingBuffer::create(region(RING_SIZE)).unwrap();
    assert!(rb.is_empty());

    // Push 3 events
    assert!(rb.push(&make_event(1)));
    assert!(rb.push(&make_event(2)));
    assert!(rb.push(&make_event(3)));
    assert_eq!(rb.len(), 3);

    // Pop them back
    let e1 = rb.pop().unwrap();
    assert_eq!(e1.header.sequence, 1);
    let e2 = rb.pop().unwrap();
    assert_eq!(e2.header.sequence, 2);
    let e3 = rb.pop().unwrap();
    assert_eq!(e3.header.sequence, 3);

    assert!(rb.pop().is_none());
    assert!(rb.is_empty());
}

#[test]
fn test_ring_buffer_wrap_around() {
    let mut rb = RingBuffer::create(region(RING_SIZE)).unwrap();

    // Push and pop many events to test wrapping
    for i in 0..1000u64 {
        assert!(rb.push(&make_event(i)));
        let e = rb.pop().unwrap();
        assert_eq!(e.header.sequence, i);
    }
}

#[test]
fn test_ring_buffer_reopen() {
    let mut rb = RingBuffer::create(region(RING_SIZE)).unwrap();
    rb.push(&make_event(42));
    rb.push(&make_event(43));

    // Reopen and read
    let mut rb = RingBuffer::open(rb.into_region()).unwrap();
    assert_eq!(rb.len(), 2);
    let e = rb.pop().unwrap();
    assert_eq!(e.header.sequence, 42);
}

#[test]
fn test_ring_buffer_full_capacity() {
    let mut rb = RingBuffer::create(region(RING_SIZE)).unwrap();
    let cap = rb.capacity();
    assert_eq!(cap, 65536);
    for i in 0..cap as u64 {
        assert!(rb.push(&make_event(i)));
    }
    // A full buffer refuses the next push and keeps its state.
    assert!(!rb.push(&make_event(99999)));
    assert_eq!(rb.len(), cap);
    // One pop frees exactly one slot.
    let e = rb.pop().unwrap();
    assert_eq!(e.header.sequence, 0);
    assert!(rb.push(&make_event(70000)));
    assert!(!rb.push(&make_event(70001)));
    assert_eq!(rb.len(), cap);
}

#[test]
fn test_ring_buffer_payload_preserved() {
    let mut rb = RingBuffer::create(region(RING_SIZE)).unwrap();
    let mut ev = make_event(7);
    for (i, b) in ev.payload.iter_mut().enumerate() {
        *b = i as u8 ^ 0x5A;
    }
    ev.header.payload_len = 40;
    ev.header.source_proc = 9;
    assert!(rb.push(&ev));
    let back = rb.pop().unwrap();
    assert_eq!(back.header.timestamp, 700);
    assert_eq!(back.header.source_proc, 9);
    assert_eq!(back.header.payload_len, 40);
    assert_eq!(back.payload, ev.payload);
}

#[test]
fn test_ring_buffer_bad_counters() {
    let mut r = region(RING_SIZE);
    // A consumer counter ahead of the producer counter is refused at open.
    r.write_u64(64, 1);
    assert!(matches!(
        RingBuffer::open(r),
        Err(SegmentError::BadCounters)
    ));
}

#[test]
fn test_price_store_create_and_readback() {
    let store_regions = (region(STORE_SIZE), region(STORE_SIZE));
    let mut store = PriceStore::create(store_regions.0, store_regions.1, 100).unwrap();
    assert_eq!(store.num_symbols(), 100);

    let snap = PriceSnapshot {
        best_bid: 50000.0f64.to_bits(),
        best_ask: 50001.0f64.to_bits(),
        updated_at: 1_700_000_000_000_000,
    };

    store.write(0, 0, &snap);
    let result = store.read(0, 0).unwrap();
    assert!((f64::from_bits(result.best_bid) - 50000.0).abs() < f64::EPSILON);
    assert!((f64::from_bits(result.best_ask) - 50001.0).abs() < f64::EPSILON);

    // Unwritten slot returns zero/default
    let empty = store.read(1, 0);
    assert!(empty.is_some()); // seq=0 is even, so read succeeds
    let empty = empty.unwrap();
    assert!((f64::from_bits(empty.best_bid) - 0.0).abs() < f64::EPSILON);
}

#[test]
fn test_price_store_reopen() {
    let mut store = PriceStore::create(region(STORE_SIZE), region(STORE_SIZE), 50).unwrap();
    store.write(
        10,
        3,
        &PriceSnapshot {
            best_bid: 100.0f64.to_bits(),
            best_ask: 101.0f64.to_bits(),
            updated_at: 999,
        },
    );

    // Reopen and read back
    let (seqs, data) = store.into_regions();
    let store = PriceStore::open(seqs, data).unwrap();
    assert_eq!(store.num_symbols(), 50);
    let snap = store.read(10, 3).unwrap();
    assert!((f64::from_bits(snap.best_bid) - 100.0).abs() < f64::EPSILON);
    assert_eq!(snap.updated_at, 999);
}

#[test]
fn test_price_store_header_validation() {
    // Zeroed regions carry no magic word.
    assert!(matches!(
        PriceStore::open(region(STORE_SIZE), region(STORE_SIZE)),
        Err(SegmentError::BadMagic)
    ));
    // A corrupted version is refused.
    let store = PriceStore::create(region(STORE_SIZE), region(STORE_SIZE), 10).unwrap();
    let (mut seqs, data) = store.into_regions();
    seqs.write_byte(4, 2);
    assert!(matches!(
        PriceStore::open(seqs, data),
        Err(SegmentError::BadVersion)
    ));
    // Undersized regions are refused before any header check.
    assert!(matches!(
        PriceStore::create(region(64), region(64), 10),
        Err(SegmentError::WrongSize)
    ));
}

#[test]
fn test_price_store_slot_independence() {
    let mut store = PriceStore::create(region(STORE_SIZE), region(STORE_SIZE), 100).unwrap();
    let a = PriceSnapshot { best_bid: 1, best_ask: 2, updated_at: 3 };
    let b = PriceSnapshot { best_bid: 7, best_ask: 8, updated_at: 9 };
    store.write(5, 1, &a);
    store.write(5, 2, &b);
    let ra = store.read(5, 1).unwrap();
    let rb = store.read(5, 2).unwrap();
    assert_eq!(ra, a);
    assert_eq!(rb, b);
    assert_eq!(store.read_seq(5, 1), 2);
    assert_eq!(store.read_seq(5, 2), 2);
    assert_eq!(store.read_seq(5, 3), 0);
}
