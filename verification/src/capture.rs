//! The capture session manager: two independent monitoring slots, each
//! binding at most one live input stream and publishing the latest RMS
//! loudness of that stream's blocks.
//!
//! The manager owns the decisions; the host-audio shell around it opens and
//! disposes the actual platform streams. A stream is referred to here by an
//! opaque token the shell chooses: whenever a binding is superseded or
//! stopped, the displaced token is handed back so the shell can dispose of
//! that stream -- a binding is never silently dropped.

use vstd::prelude::*;
use crate::sample::SampleFormat;
use crate::sample::fmt_den;
use crate::sample::raw_in_range;
use crate::sample::norm_seq;
use crate::sample::den_of;
use crate::sample::normalize_block;
use crate::meter::Rms;
use crate::meter::VolumePercent;
use crate::meter::rms_wf;
use crate::meter::is_isqrt;
use crate::meter::sum_sq;
use crate::meter::calculate_rms;
use crate::meter::volume_percent;

verus! {

/// Which of the two monitoring slots an operation targets. Exactly two
/// slots exist for the lifetime of the manager.
#[derive(Clone, Copy, PartialEq, Eq, Structural, Debug)]
pub enum ChannelSlot {
    Primary,
    Secondary,
}

/// One slot's state: whether a stream is bound, the token of that stream,
/// and the latest published loudness.
#[derive(Clone, Copy, PartialEq, Eq, Structural, Debug)]
pub struct ChannelState {
    pub active: bool,
    pub stream_token: Option<u64>,
    pub loudness: Rms,
}

/// The two-slot registry. Both slots start idle and silent.
#[derive(Clone, Copy, PartialEq, Eq, Structural, Debug)]
pub struct CaptureManager {
    pub primary: ChannelState,
    pub secondary: ChannelState,
}

/// An idle, silent slot: no stream bound, loudness exactly zero.
pub open spec fn channel_idle(c: ChannelState) -> bool {
    &&& !c.active
    &&& c.stream_token is None
    &&& c.loudness == (Rms { num: 0, den: 1 })
}

pub open spec fn channel_wf(c: ChannelState) -> bool {
    &&& (c.active <==> c.stream_token is Some)
    &&& rms_wf(c.loudness)
}

impl CaptureManager {
    pub open spec fn wf(&self) -> bool {
        &&& channel_wf(self.primary)
        &&& channel_wf(self.secondary)
    }

    pub open spec fn slot(&self, slot: ChannelSlot) -> ChannelState {
        match slot {
            ChannelSlot::Primary => self.primary,
            ChannelSlot::Secondary => self.secondary,
        }
    }

    /// A fresh manager: both slots idle, both loudness readings zero.
    pub fn new() -> (m: CaptureManager)
        ensures
            m.wf(),
            channel_idle(m.primary),
            channel_idle(m.secondary),
    {
        let idle = ChannelState { active: false, stream_token: None, loudness: Rms { num: 0, den: 1 } };
        CaptureManager { primary: idle, secondary: idle }
    }

    /// Binds a newly opened stream (named by `stream_token`) to `slot`,
    /// superseding any previous binding: the displaced token, if any, is
    /// returned so the caller can dispose of that stream rather than leak
    /// it. The slot ends active with the new stream authoritative; its
    /// loudness reading is kept until the first block arrives. The other
    /// slot is untouched.
    pub fn begin_session(&mut self, slot: ChannelSlot, stream_token: u64) -> (prev: Option<u64>)
        requires
            old(self).wf(),
        ensures
            final(self).wf(),
            prev == old(self).slot(slot).stream_token,
            final(self).slot(slot).active,
            final(self).slot(slot).stream_token == Some(stream_token),
            final(self).slot(slot).loudness == old(self).slot(slot).loudness,
            slot != ChannelSlot::Primary ==> final(self).primary == old(self).primary,
            slot != ChannelSlot::Secondary ==> final(self).secondary == old(self).secondary,
    {
        match slot {
            ChannelSlot::Primary => {
                let prev = self.primary.stream_token;
                self.primary.stream_token = Some(stream_token);
                self.primary.active = true;
                prev
            },
            ChannelSlot::Secondary => {
                let prev = self.secondary.stream_token;
                self.secondary.stream_token = Some(stream_token);
                self.secondary.active = true;
                prev
            },
        }
    }

    /// One captured block arriving for `slot`: the block is normalized and
    /// its RMS overwrites the slot's loudness -- but only while the slot is
    /// active. A block arriving after a stop (a stale callback) changes
    /// nothing, so a post-stop zero is never overwritten by a late write.
    /// The length bound keeps the meter's square sums within machine words;
    /// real callback blocks are far smaller.
    pub fn process_block(&mut self, slot: ChannelSlot, fmt: SampleFormat, raw: &Vec<i32>)
        requires
            old(self).wf(),
            forall|i: int| 0 <= i < raw@.len() ==> raw_in_range(fmt, #[trigger] raw@[i] as int),
            raw@.len() <= 0x4000_0000,
        ensures
            final(self).wf(),
            !old(self).slot(slot).active ==> *final(self) == *old(self),
            old(self).slot(slot).active ==> {
                &&& final(self).slot(slot).active == old(self).slot(slot).active
                &&& final(self).slot(slot).stream_token == old(self).slot(slot).stream_token
                &&& slot != ChannelSlot::Primary ==> final(self).primary == old(self).primary
                &&& slot != ChannelSlot::Secondary ==> final(self).secondary == old(self).secondary
                &&& raw@.len() == 0 ==> final(self).slot(slot).loudness == (Rms { num: 0, den: 1 })
                &&& raw@.len() > 0 ==> final(self).slot(slot).loudness.den as int == raw@.len()
                    * fmt_den(fmt)
                &&& raw@.len() > 0 ==> is_isqrt(
                    final(self).slot(slot).loudness.num as int,
                    raw@.len() * sum_sq(norm_seq(fmt, raw@)),
                )
            },
    {
        let active = match slot {
            ChannelSlot::Primary => self.primary.active,
            ChannelSlot::Secondary => self.secondary.active,
        };
        if !active {
            return ;
        }
        let den = den_of(fmt);
        let block = normalize_block(fmt, raw);
        proof {
            assert(block@ =~= norm_seq(fmt, raw@));
            assert(raw@.len() * (den as int + 2) <= 0x4000_0000_0000_0000) by (nonlinear_arith)
                requires
                    raw@.len() <= 0x4000_0000,
                    0 <= den as int + 2 <= 0x8000_0001,
            ;
        }
        let rms = calculate_rms(&block, den);
        match slot {
            ChannelSlot::Primary => {
                self.primary.loudness = rms;
            },
            ChannelSlot::Secondary => {
                self.secondary.loudness = rms;
            },
        }
    }

    /// Stops monitoring on `slot`: the loudness reading is reset to exactly
    /// zero and the slot's stream token, if any, is handed back for
    /// disposal. Stopping an already-stopped slot is a no-op success. The
    /// other slot is untouched. Never fails.
    pub fn stop_monitoring(&mut self, slot: ChannelSlot) -> (prev: Option<u64>)
        requires
            old(self).wf(),
        ensures
            final(self).wf(),
            prev == old(self).slot(slot).stream_token,
            channel_idle(final(self).slot(slot)),
            slot != ChannelSlot::Primary ==> final(self).primary == old(self).primary,
            slot != ChannelSlot::Secondary ==> final(self).secondary == old(self).secondary,
    {
        let idle = ChannelState { active: false, stream_token: None, loudness: Rms { num: 0, den: 1 } };
        match slot {
            ChannelSlot::Primary => {
                let prev = self.primary.stream_token;
                self.primary = idle;
                prev
            },
            ChannelSlot::Secondary => {
                let prev = self.secondary.stream_token;
                self.secondary = idle;
                prev
            },
        }
    }

    /// The slot's current loudness mapped to the display percentage
    /// `min(rms * 100, 100)`, exactly. Never fails; a never-started or
    /// stopped slot reads exactly zero, and a loudness at or above full
    /// scale reads exactly 100.
    pub fn get_volume(&self, slot: ChannelSlot) -> (p: VolumePercent)
        requires
            self.wf(),
        ensures
            1 <= p.den,
            p.num <= 100 * p.den,
            self.slot(slot).loudness.num >= self.slot(slot).loudness.den ==> p.num == 100
                && p.den == 1,
            self.slot(slot).loudness.num < self.slot(slot).loudness.den ==> p.num == 100 * self.slot(
                slot,
            ).loudness.num && p.den == self.slot(slot).loudness.den,
            channel_idle(self.slot(slot)) ==> p.num == 0,
    {
        let l = match slot {
            ChannelSlot::Primary => self.primary.loudness,
            ChannelSlot::Secondary => self.secondary.loudness,
        };
        volume_percent(&l)
    }
}

} // verus!
