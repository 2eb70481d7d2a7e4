//! Control Store — global flags for system control.
//!
//! A 256-byte segment holding three independent boolean flags (pause, kill,
//! shutdown) and one monotonic 64-bit configuration-version counter. The
//! flags occupy bytes 0, 1 and 2; the counter occupies bytes 8..16; every
//! other byte is reserved.

use vstd::prelude::*;

use crate::bytes::{lemma_le_at_n_agree, lemma_le_at_n_zero, u64_at};
use crate::region::Region;
use crate::types::SegmentError;

verus! {

/// Size of the control segment in bytes.
pub const CONTROL_SIZE: usize = 256;

pub const OFF_PAUSE: usize = 0;

pub const OFF_KILL: usize = 1;

pub const OFF_SHUTDOWN: usize = 2;

pub const OFF_VERSION: usize = 8;

/// Abstract state of a control store.
pub struct ControlState {
    pub pause: bool,
    pub kill: bool,
    pub shutdown: bool,
    pub config_version: u64,
}

impl ControlState {
    /// The state of a freshly created store.
    pub open spec fn initial() -> ControlState {
        ControlState { pause: false, kill: false, shutdown: false, config_version: 0 }
    }

    /// Whether any stop condition is active.
    pub open spec fn should_stop_spec(self) -> bool {
        self.kill || self.shutdown
    }
}

/// The control state spelled by a segment's bytes.
pub open spec fn control_of(s: Seq<u8>) -> ControlState {
    ControlState {
        pause: s[OFF_PAUSE as int] != 0,
        kill: s[OFF_KILL as int] != 0,
        shutdown: s[OFF_SHUTDOWN as int] != 0,
        config_version: u64_at(s, OFF_VERSION as int),
    }
}

/// Handle to a mapped control segment.
pub struct ControlStore {
    region: Region,
}

impl View for ControlStore {
    type V = ControlState;

    closed spec fn view(&self) -> ControlState {
        control_of(self.region@)
    }
}

impl ControlStore {
    pub closed spec fn wf(&self) -> bool {
        self.region@.len() >= CONTROL_SIZE
    }

    /// Initialize a control segment: zero it, so that every flag starts
    /// clear and the version starts at zero. Refuses a region too small for
    /// the layout.
    pub fn create(region: Region) -> (r: Result<ControlStore, SegmentError>)
        ensures
            region@.len() >= CONTROL_SIZE ==> (r matches Ok(c) && c.wf() && c@
                == ControlState::initial()),
            region@.len() < CONTROL_SIZE ==> r == Err::<ControlStore, SegmentError>(
                SegmentError::WrongSize,
            ),
    {
        let mut region = region;
        if region.len() < CONTROL_SIZE {
            return Err(SegmentError::WrongSize);
        }
        region.fill_zero();
        proof {
            assert(region@.subrange(OFF_VERSION as int, OFF_VERSION + 8) =~= Seq::new(
                8nat,
                |i: int| 0u8,
            ));
            lemma_le_at_n_zero(region@, OFF_VERSION as int, 8);
        }
        Ok(ControlStore { region })
    }

    /// Attach to an existing control segment without touching its bytes.
    /// Refuses a region too small for the layout.
    pub fn open(region: Region) -> (r: Result<ControlStore, SegmentError>)
        ensures
            region@.len() >= CONTROL_SIZE ==> (r matches Ok(c) && c.wf() && c@ == control_of(
                region@,
            )),
            region@.len() < CONTROL_SIZE ==> r == Err::<ControlStore, SegmentError>(
                SegmentError::WrongSize,
            ),
    {
        if region.len() < CONTROL_SIZE {
            return Err(SegmentError::WrongSize);
        }
        Ok(ControlStore { region })
    }

    /// Hand the underlying region back, state intact.
    pub fn into_region(self) -> (r: Region)
        requires
            self.wf(),
        ensures
            r@.len() >= CONTROL_SIZE,
            control_of(r@) == self@,
    {
        self.region
    }

    fn read_flag(&self, off: usize) -> (r: bool)
        requires
            self.wf(),
            off < CONTROL_SIZE,
        ensures
            r == (self.region@[off as int] != 0),
    {
        self.region.read_byte(off) != 0
    }

    fn write_flag(&mut self, off: usize, v: bool)
        requires
            old(self).wf(),
            off < CONTROL_SIZE,
        ensures
            final(self).wf(),
            final(self).region@ == old(self).region@.update(
                off as int,
                if v {
                    1u8
                } else {
                    0u8
                },
            ),
    {
        self.region.write_byte(
            off,
            if v {
                1
            } else {
                0
            },
        );
    }

    /// The flag bytes lie outside the version field, so writing one never
    /// moves the version.
    proof fn lemma_flag_write_keeps_version(pre: Seq<u8>, post: Seq<u8>, off: int)
        requires
            pre.len() >= CONTROL_SIZE,
            0 <= off < OFF_VERSION,
            post == pre.update(off, post[off]),
        ensures
            u64_at(post, OFF_VERSION as int) == u64_at(pre, OFF_VERSION as int),
    {
        assert(post.subrange(OFF_VERSION as int, OFF_VERSION + 8) =~= pre.subrange(
            OFF_VERSION as int,
            OFF_VERSION + 8,
        ));
        lemma_le_at_n_agree(post, pre, OFF_VERSION as int, 8);
    }

    pub fn is_paused(&self) -> (r: bool)
        requires
            self.wf(),
        ensures
            r == self@.pause,
    {
        self.read_flag(OFF_PAUSE)
    }

    pub fn set_pause(&mut self, paused: bool)
        requires
            old(self).wf(),
        ensures
            final(self).wf(),
            final(self)@ == (ControlState { pause: paused, ..old(self)@ }),
    {
        self.write_flag(OFF_PAUSE, paused);
        proof {
            Self::lemma_flag_write_keeps_version(
                old(self).region@,
                self.region@,
                OFF_PAUSE as int,
            );
        }
    }

    pub fn is_killed(&self) -> (r: bool)
        requires
            self.wf(),
        ensures
            r == self@.kill,
    {
        self.read_flag(OFF_KILL)
    }

    pub fn set_kill_switch(&mut self, killed: bool)
        requires
            old(self).wf(),
        ensures
            final(self).wf(),
            final(self)@ == (ControlState { kill: killed, ..old(self)@ }),
    {
        self.write_flag(OFF_KILL, killed);
        proof {
            Self::lemma_flag_write_keeps_version(old(self).region@, self.region@, OFF_KILL as int);
        }
    }

    pub fn is_shutdown(&self) -> (r: bool)
        requires
            self.wf(),
        ensures
            r == self@.shutdown,
    {
        self.read_flag(OFF_SHUTDOWN)
    }

    pub fn set_shutdown(&mut self, shutdown: bool)
        requires
            old(self).wf(),
        ensures
            final(self).wf(),
            final(self)@ == (ControlState { shutdown: shutdown, ..old(self)@ }),
    {
        self.write_flag(OFF_SHUTDOWN, shutdown);
        proof {
            Self::lemma_flag_write_keeps_version(
                old(self).region@,
                self.region@,
                OFF_SHUTDOWN as int,
            );
        }
    }

    pub fn config_version(&self) -> (r: u64)
        requires
            self.wf(),
        ensures
            r == self@.config_version,
    {
        self.region.read_u64(OFF_VERSION)
    }

    pub fn set_config_version(&mut self, version: u64)
        requires
            old(self).wf(),
        ensures
            final(self).wf(),
            final(self)@ == (ControlState { config_version: version, ..old(self)@ }),
    {
        self.region.write_u64(OFF_VERSION, version);
    }

    /// Bump the configuration version and return the new value.
    pub fn increment_config_version(&mut self) -> (r: u64)
        requires
            old(self).wf(),
            old(self)@.config_version < u64::MAX,
        ensures
            final(self).wf(),
            final(self)@ == (ControlState {
                config_version: (old(self)@.config_version + 1) as u64,
                ..old(self)@
            }),
            r == old(self)@.config_version + 1,
    {
        let v = self.region.read_u64(OFF_VERSION);
        self.region.write_u64(OFF_VERSION, v + 1);
        v + 1
    }

    /// Whether any stop condition (kill or shutdown) is active.
    pub fn should_stop(&self) -> (r: bool)
        requires
            self.wf(),
        ensures
            r == self@.should_stop_spec(),
            r == (self@.kill || self@.shutdown),
    {
        self.is_killed() || self.is_shutdown()
    }
}

} // verus!
