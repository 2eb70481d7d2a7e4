//! Health Table — 16 fixed slots of process telemetry.
//!
//! Each 64-byte slot belongs to exactly one logical process and holds its
//! status code, heartbeat timestamp, message and error counters, connection
//! count and uptime. Writers only ever touch their own slot; any monitor
//! may snapshot any slot.
//!
//! Slot layout (byte offsets within the slot): status at 0, heartbeat at
//! 8..16, message counter at 16..24, error counter at 24..28, connection
//! count at 28, uptime at 32..36; the rest is reserved.

use vstd::prelude::*;

use crate::bytes::{lemma_le_at_n_agree, lemma_le_at_n_zero, u32_at, u64_at};
use crate::region::Region;
use crate::types::SegmentError;

verus! {

/// Number of health slots.
pub const NUM_SLOTS: usize = 16;

/// Bytes per slot.
pub const SLOT_SIZE: usize = 64;

/// Size of the health segment in bytes.
pub const HEALTH_SIZE: usize = 1024;

/// Process status codes stored in a slot; unknown numeric values map to
/// `Unknown` for forward compatibility.
#[derive(Clone, Copy, Debug, PartialEq, Eq, Structural)]
pub enum ProcessStatus {
    Unknown,
    Starting,
    Running,
    Degraded,
    Stopped,
}

impl ProcessStatus {
    /// The wire code of this status.
    pub open spec fn code_spec(self) -> u8 {
        match self {
            ProcessStatus::Unknown => 0,
            ProcessStatus::Starting => 1,
            ProcessStatus::Running => 2,
            ProcessStatus::Degraded => 3,
            ProcessStatus::Stopped => 4,
        }
    }

    pub fn code(self) -> (r: u8)
        ensures
            r == self.code_spec(),
    {
        match self {
            ProcessStatus::Unknown => 0,
            ProcessStatus::Starting => 1,
            ProcessStatus::Running => 2,
            ProcessStatus::Degraded => 3,
            ProcessStatus::Stopped => 4,
        }
    }

    pub open spec fn from_u8_spec(v: u8) -> ProcessStatus {
        if v == 1 {
            ProcessStatus::Starting
        } else if v == 2 {
            ProcessStatus::Running
        } else if v == 3 {
            ProcessStatus::Degraded
        } else if v == 4 {
            ProcessStatus::Stopped
        } else {
            ProcessStatus::Unknown
        }
    }

    pub fn from_u8(v: u8) -> (r: ProcessStatus)
        ensures
            r == ProcessStatus::from_u8_spec(v),
    {
        match v {
            1 => ProcessStatus::Starting,
            2 => ProcessStatus::Running,
            3 => ProcessStatus::Degraded,
            4 => ProcessStatus::Stopped,
            _ => ProcessStatus::Unknown,
        }
    }
}

/// The raw fields of one stored slot.
#[derive(Clone, Copy, Debug, PartialEq, Eq, Structural)]
pub struct HealthSlot {
    pub status: u8,
    pub heartbeat_us: u64,
    pub msg_count: u64,
    pub error_count: u32,
    pub ws_connections: u8,
    pub uptime_sec: u32,
}

impl HealthSlot {
    /// A freshly created slot: everything zero.
    pub open spec fn initial() -> HealthSlot {
        HealthSlot {
            status: 0,
            heartbeat_us: 0,
            msg_count: 0,
            error_count: 0,
            ws_connections: 0,
            uptime_sec: 0,
        }
    }
}

/// A decoded snapshot of a slot, for monitors.
#[derive(Clone, Debug)]
pub struct HealthSnapshot {
    pub status: ProcessStatus,
    pub heartbeat_us: u64,
    pub msg_count: u64,
    pub error_count: u32,
    pub ws_connections: u8,
    pub uptime_sec: u32,
}

/// What a monitor sees of a stored slot.
pub open spec fn snapshot_of(slot: HealthSlot) -> HealthSnapshot {
    HealthSnapshot {
        status: ProcessStatus::from_u8_spec(slot.status),
        heartbeat_us: slot.heartbeat_us,
        msg_count: slot.msg_count,
        error_count: slot.error_count,
        ws_connections: slot.ws_connections,
        uptime_sec: slot.uptime_sec,
    }
}

/// The slot record spelled by a segment's bytes at slot `i`.
pub open spec fn slot_of(s: Seq<u8>, i: int) -> HealthSlot {
    HealthSlot {
        status: s[i * SLOT_SIZE],
        heartbeat_us: u64_at(s, i * SLOT_SIZE + 8),
        msg_count: u64_at(s, i * SLOT_SIZE + 16),
        error_count: u32_at(s, i * SLOT_SIZE + 24),
        ws_connections: s[i * SLOT_SIZE + 28],
        uptime_sec: u32_at(s, i * SLOT_SIZE + 32),
    }
}

/// Handle to a mapped health segment.
pub struct HealthTable {
    region: Region,
}

impl HealthTable {
    pub closed spec fn wf(&self) -> bool {
        self.region@.len() >= HEALTH_SIZE
    }

    /// The current record of slot `i`.
    pub closed spec fn slot_spec(&self, i: int) -> HealthSlot {
        slot_of(self.region@, i)
    }

    /// Initialize a health segment: zero it, so every slot starts at its
    /// default. Refuses a region too small for the layout.
    pub fn create(region: Region) -> (r: Result<HealthTable, SegmentError>)
        ensures
            region@.len() >= HEALTH_SIZE ==> (r matches Ok(t) && t.wf() && forall|i: int|
                0 <= i < NUM_SLOTS ==> t.slot_spec(i) == HealthSlot::initial()),
            region@.len() < HEALTH_SIZE ==> r == Err::<HealthTable, SegmentError>(
                SegmentError::WrongSize,
            ),
    {
        let mut region = region;
        if region.len() < HEALTH_SIZE {
            return Err(SegmentError::WrongSize);
        }
        region.fill_zero();
        let table = HealthTable { region };
        proof {
            assert forall|i: int| 0 <= i < NUM_SLOTS implies table.slot_spec(i)
                == HealthSlot::initial() by {
                let base = i * SLOT_SIZE;
                assert(table.region@.subrange(base + 8, base + 16) =~= Seq::new(
                    8nat,
                    |k: int| 0u8,
                ));
                lemma_le_at_n_zero(table.region@, base + 8, 8);
                assert(table.region@.subrange(base + 16, base + 24) =~= Seq::new(
                    8nat,
                    |k: int| 0u8,
                ));
                lemma_le_at_n_zero(table.region@, base + 16, 8);
                assert(table.region@.subrange(base + 24, base + 28) =~= Seq::new(
                    4nat,
                    |k: int| 0u8,
                ));
                lemma_le_at_n_zero(table.region@, base + 24, 4);
                assert(table.region@.subrange(base + 32, base + 36) =~= Seq::new(
                    4nat,
                    |k: int| 0u8,
                ));
                lemma_le_at_n_zero(table.region@, base + 32, 4);
            }
        }
        Ok(table)
    }

    /// Attach to an existing health segment without touching its bytes.
    /// Refuses a region too small for the layout.
    pub fn open(region: Region) -> (r: Result<HealthTable, SegmentError>)
        ensures
            region@.len() >= HEALTH_SIZE ==> (r matches Ok(t) && t.wf() && forall|i: int|
                0 <= i < NUM_SLOTS ==> t.slot_spec(i) == slot_of(region@, i)),
            region@.len() < HEALTH_SIZE ==> r == Err::<HealthTable, SegmentError>(
                SegmentError::WrongSize,
            ),
    {
        if region.len() < HEALTH_SIZE {
            return Err(SegmentError::WrongSize);
        }
        Ok(HealthTable { region })
    }

    /// Hand the underlying region back, contents intact.
    pub fn into_region(self) -> (r: Region)
        requires
            self.wf(),
        ensures
            r@.len() >= HEALTH_SIZE,
            forall|i: int| 0 <= i < NUM_SLOTS ==> slot_of(r@, i) == self.slot_spec(i),
    {
        self.region
    }

    /// A write confined to bytes `[lo, hi)` of slot `i` leaves every other
    /// slot, and every field of slot `i` whose bytes lie outside `[lo, hi)`,
    /// exactly as it was.
    proof fn lemma_slot_frame(pre: Seq<u8>, post: Seq<u8>, i: int, lo: int, hi: int)
        requires
            pre.len() >= HEALTH_SIZE,
            post.len() == pre.len(),
            0 <= i < NUM_SLOTS,
            i * SLOT_SIZE <= lo <= hi <= i * SLOT_SIZE + SLOT_SIZE,
            forall|j: int| 0 <= j < post.len() && !(lo <= j < hi) ==> post[j] == pre[j],
        ensures
            forall|j: int| 0 <= j < NUM_SLOTS && j != i ==> slot_of(post, j) == slot_of(pre, j),
            (hi <= i * SLOT_SIZE || i * SLOT_SIZE + 1 <= lo) ==> slot_of(post, i).status == slot_of(
                pre,
                i,
            ).status,
            (hi <= i * SLOT_SIZE + 8 || i * SLOT_SIZE + 16 <= lo) ==> slot_of(
                post,
                i,
            ).heartbeat_us == slot_of(pre, i).heartbeat_us,
            (hi <= i * SLOT_SIZE + 16 || i * SLOT_SIZE + 24 <= lo) ==> slot_of(post, i).msg_count
                == slot_of(pre, i).msg_count,
            (hi <= i * SLOT_SIZE + 24 || i * SLOT_SIZE + 28 <= lo) ==> slot_of(post, i).error_count
                == slot_of(pre, i).error_count,
            (hi <= i * SLOT_SIZE + 28 || i * SLOT_SIZE + 29 <= lo) ==> slot_of(
                post,
                i,
            ).ws_connections == slot_of(pre, i).ws_connections,
            (hi <= i * SLOT_SIZE + 32 || i * SLOT_SIZE + 36 <= lo) ==> slot_of(post, i).uptime_sec
                == slot_of(pre, i).uptime_sec,
    {
        assert forall|j: int| 0 <= j < NUM_SLOTS && j != i implies slot_of(post, j) == slot_of(
            pre,
            j,
        ) by {
            let base = j * SLOT_SIZE;
            assert(post.subrange(base + 8, base + 16) =~= pre.subrange(base + 8, base + 16));
            lemma_le_at_n_agree(post, pre, base + 8, 8);
            assert(post.subrange(base + 16, base + 24) =~= pre.subrange(base + 16, base + 24));
            lemma_le_at_n_agree(post, pre, base + 16, 8);
            assert(post.subrange(base + 24, base + 28) =~= pre.subrange(base + 24, base + 28));
            lemma_le_at_n_agree(post, pre, base + 24, 4);
            assert(post.subrange(base + 32, base + 36) =~= pre.subrange(base + 32, base + 36));
            lemma_le_at_n_agree(post, pre, base + 32, 4);
        }
        let base = i * SLOT_SIZE;
        if hi <= base + 8 || base + 16 <= lo {
            assert(post.subrange(base + 8, base + 16) =~= pre.subrange(base + 8, base + 16));
            lemma_le_at_n_agree(post, pre, base + 8, 8);
        }
        if hi <= base + 16 || base + 24 <= lo {
            assert(post.subrange(base + 16, base + 24) =~= pre.subrange(base + 16, base + 24));
            lemma_le_at_n_agree(post, pre, base + 16, 8);
        }
        if hi <= base + 24 || base + 28 <= lo {
            assert(post.subrange(base + 24, base + 28) =~= pre.subrange(base + 24, base + 28));
            lemma_le_at_n_agree(post, pre, base + 24, 4);
        }
        if hi <= base + 32 || base + 36 <= lo {
            assert(post.subrange(base + 32, base + 36) =~= pre.subrange(base + 32, base + 36));
            lemma_le_at_n_agree(post, pre, base + 32, 4);
        }
    }

    /// Record a heartbeat timestamp in the caller's slot.
    pub fn heartbeat(&mut self, slot_id: usize, timestamp_us: u64)
        requires
            old(self).wf(),
            slot_id < NUM_SLOTS,
        ensures
            final(self).wf(),
            final(self).slot_spec(slot_id as int) == (HealthSlot {
                heartbeat_us: timestamp_us,
                ..old(self).slot_spec(slot_id as int)
            }),
            forall|j: int|
                0 <= j < NUM_SLOTS && j != slot_id ==> final(self).slot_spec(j) == old(
                    self,
                ).slot_spec(j),
    {
        let base = slot_id * SLOT_SIZE;
        self.region.write_u64(base + 8, timestamp_us);
        proof {
            Self::lemma_slot_frame(
                old(self).region@,
                self.region@,
                slot_id as int,
                slot_id as int * SLOT_SIZE + 8,
                slot_id as int * SLOT_SIZE + 16,
            );
        }
    }

    /// Set the caller's status code.
    pub fn set_status(&mut self, slot_id: usize, status: ProcessStatus)
        requires
            old(self).wf(),
            slot_id < NUM_SLOTS,
        ensures
            final(self).wf(),
            final(self).slot_spec(slot_id as int) == (HealthSlot {
                status: status.code_spec(),
                ..old(self).slot_spec(slot_id as int)
            }),
            forall|j: int|
                0 <= j < NUM_SLOTS && j != slot_id ==> final(self).slot_spec(j) == old(
                    self,
                ).slot_spec(j),
    {
        let base = slot_id * SLOT_SIZE;
        self.region.write_byte(base, status.code());
        proof {
            Self::lemma_slot_frame(
                old(self).region@,
                self.region@,
                slot_id as int,
                slot_id as int * SLOT_SIZE,
                slot_id as int * SLOT_SIZE + 1,
            );
        }
    }

    /// Count one processed message; the counter wraps at its width.
    pub fn inc_msg_count(&mut self, slot_id: usize)
        requires
            old(self).wf(),
            slot_id < NUM_SLOTS,
        ensures
            final(self).wf(),
            final(self).slot_spec(slot_id as int) == (HealthSlot {
                msg_count: ((old(self).slot_spec(slot_id as int).msg_count + 1)
                    % 0x1_0000_0000_0000_0000) as u64,
                ..old(self).slot_spec(slot_id as int)
            }),
            forall|j: int|
                0 <= j < NUM_SLOTS && j != slot_id ==> final(self).slot_spec(j) == old(
                    self,
                ).slot_spec(j),
    {
        let base = slot_id * SLOT_SIZE;
        let v = self.region.read_u64(base + 16);
        self.region.write_u64(base + 16, v.wrapping_add(1));
        proof {
            Self::lemma_slot_frame(
                old(self).region@,
                self.region@,
                slot_id as int,
                slot_id as int * SLOT_SIZE + 16,
                slot_id as int * SLOT_SIZE + 24,
            );
        }
    }

    /// Count one error; the counter wraps at its width.
    pub fn inc_error_count(&mut self, slot_id: usize)
        requires
            old(self).wf(),
            slot_id < NUM_SLOTS,
        ensures
            final(self).wf(),
            final(self).slot_spec(slot_id as int) == (HealthSlot {
                error_count: ((old(self).slot_spec(slot_id as int).error_count + 1)
                    % 0x1_0000_0000) as u32,
                ..old(self).slot_spec(slot_id as int)
            }),
            forall|j: int|
                0 <= j < NUM_SLOTS && j != slot_id ==> final(self).slot_spec(j) == old(
                    self,
                ).slot_spec(j),
    {
        let base = slot_id * SLOT_SIZE;
        let v = self.region.read_u32(base + 24);
        self.region.write_u32(base + 24, v.wrapping_add(1));
        proof {
            Self::lemma_slot_frame(
                old(self).region@,
                self.region@,
                slot_id as int,
                slot_id as int * SLOT_SIZE + 24,
                slot_id as int * SLOT_SIZE + 28,
            );
        }
    }

    /// Record the number of active upstream connections.
    pub fn set_ws_connections(&mut self, slot_id: usize, count: u8)
        requires
            old(self).wf(),
            slot_id < NUM_SLOTS,
        ensures
            final(self).wf(),
            final(self).slot_spec(slot_id as int) == (HealthSlot {
                ws_connections: count,
                ..old(self).slot_spec(slot_id as int)
            }),
            forall|j: int|
                0 <= j < NUM_SLOTS && j != slot_id ==> final(self).slot_spec(j) == old(
                    self,
                ).slot_spec(j),
    {
        let base = slot_id * SLOT_SIZE;
        self.region.write_byte(base + 28, count);
        proof {
            Self::lemma_slot_frame(
                old(self).region@,
                self.region@,
                slot_id as int,
                slot_id as int * SLOT_SIZE + 28,
                slot_id as int * SLOT_SIZE + 29,
            );
        }
    }

    /// Record the process's uptime in seconds.
    pub fn set_uptime(&mut self, slot_id: usize, sec: u32)
        requires
            old(self).wf(),
            slot_id < NUM_SLOTS,
        ensures
            final(self).wf(),
            final(self).slot_spec(slot_id as int) == (HealthSlot {
                uptime_sec: sec,
                ..old(self).slot_spec(slot_id as int)
            }),
            forall|j: int|
                0 <= j < NUM_SLOTS && j != slot_id ==> final(self).slot_spec(j) == old(
                    self,
                ).slot_spec(j),
    {
        let base = slot_id * SLOT_SIZE;
        self.region.write_u32(base + 32, sec);
        proof {
            Self::lemma_slot_frame(
                old(self).region@,
                self.region@,
                slot_id as int,
                slot_id as int * SLOT_SIZE + 32,
                slot_id as int * SLOT_SIZE + 36,
            );
        }
    }

    /// Snapshot one slot.
    pub fn read(&self, slot_id: usize) -> (r: HealthSnapshot)
        requires
            self.wf(),
            slot_id < NUM_SLOTS,
        ensures
            r == snapshot_of(self.slot_spec(slot_id as int)),
    {
        let base = slot_id * SLOT_SIZE;
        HealthSnapshot {
            status: ProcessStatus::from_u8(self.region.read_byte(base)),
            heartbeat_us: self.region.read_u64(base + 8),
            msg_count: self.region.read_u64(base + 16),
            error_count: self.region.read_u32(base + 24),
            ws_connections: self.region.read_byte(base + 28),
            uptime_sec: self.region.read_u32(base + 32),
        }
    }

    /// Snapshot every slot, in slot order.
    pub fn read_all(&self) -> (r: Vec<HealthSnapshot>)
        requires
            self.wf(),
        ensures
            r@.len() == NUM_SLOTS,
            forall|i: int| 0 <= i < NUM_SLOTS ==> r@[i] == snapshot_of(self.slot_spec(i)),
    {
        let mut out: Vec<HealthSnapshot> = Vec::new();
        let mut i: usize = 0;
        while i < NUM_SLOTS
            invariant
                self.wf(),
                i <= NUM_SLOTS,
                out@.len() == i,
                forall|j: int| 0 <= j < i ==> out@[j] == snapshot_of(self.slot_spec(j)),
            decreases NUM_SLOTS - i,
        {
            let snap = self.read(i);
            out.push(snap);
            i = i + 1;
        }
        out
    }

    pub fn num_slots(&self) -> (r: usize)
        ensures
            r == NUM_SLOTS,
    {
        NUM_SLOTS
    }
}

} // verus!
