//! Adaptive bitrate: what a playback policy is told, what it answers, and the plant that it is
//! run against.
//!
//! A policy is a [`Controller`]: it hears of each fetched segment and answers with a [`Decision`].
//! [`sim`] closes the loop around one in virtual time.
use vstd::prelude::*;

use crate::arith::larger;

pub mod attempt_laws;
pub mod calibration;
pub mod laws;
pub mod plant;
pub mod replay;
pub mod segment_laws;
pub mod sim;
pub mod turn_laws;

verus! {

/// A position on the media timeline, in milliseconds.
#[derive(Clone, Copy, Debug, PartialEq, Eq, Structural)]
pub struct MediaTimeMs(pub i64);

/// How far each lane reaches ahead of the presented position.
#[derive(Clone, Copy, Debug, PartialEq, Eq, Structural)]
pub struct BufferSnapshot {
    pub playback: MediaTimeMs,
    pub video_tail: MediaTimeMs,
    pub audio_tail: Option<MediaTimeMs>,
    pub audio_expected: bool,
}

impl BufferSnapshot {
    /// Both lanes filled to `ms` ahead of a presented position of zero.
    pub open spec fn level(ms: i64) -> BufferSnapshot {
        BufferSnapshot {
            playback: MediaTimeMs(0),
            video_tail: MediaTimeMs(ms),
            audio_tail: Some(MediaTimeMs(ms)),
            audio_expected: true,
        }
    }

    /// The snapshot of a pipeline whose two lanes both reach `ms` ahead.
    pub fn filled_to(ms: i64) -> (r: BufferSnapshot)
        ensures
            r == BufferSnapshot::level(ms),
    {
        BufferSnapshot {
            playback: MediaTimeMs(0),
            video_tail: MediaTimeMs(ms),
            audio_tail: Some(MediaTimeMs(ms)),
            audio_expected: true,
        }
    }
}

/// One fetched segment, as a policy hears of it.
#[derive(Clone, Copy, Debug, PartialEq, Eq, Structural)]
pub struct SegmentSample {
    /// Bytes on the wire.
    pub bytes: u64,
    /// Transfer alone, in microseconds.
    pub active_fetch_us: u64,
    /// Acquisition, from the request to the end of demuxing, in microseconds.
    pub total_fetch_us: u64,
    /// Content duration, in milliseconds.
    pub media_ms: u32,
    /// The reserve once the segment had landed.
    pub buffer: BufferSnapshot,
}

impl SegmentSample {
    /// A segment of nothing, fetched in no time, or holding no content is no measurement.
    pub open spec fn is_measurement(
        bytes: u64,
        active_fetch_us: u64,
        total_fetch_us: u64,
        media_ms: u32,
    ) -> bool {
        bytes > 0 && active_fetch_us > 0 && total_fetch_us > 0 && media_ms > 0
    }

    /// The sample with these fields, or `None` where they are no measurement.
    pub fn new(
        bytes: u64,
        active_fetch_us: u64,
        total_fetch_us: u64,
        media_ms: u32,
        buffer: BufferSnapshot,
    ) -> (r: Option<SegmentSample>)
        ensures
            r == (if SegmentSample::is_measurement(
                bytes,
                active_fetch_us,
                total_fetch_us,
                media_ms,
            ) {
                Some(
                    (SegmentSample { bytes, active_fetch_us, total_fetch_us, media_ms, buffer }),
                )
            } else {
                None
            }),
    {
        if bytes > 0 && active_fetch_us > 0 && total_fetch_us > 0 && media_ms > 0 {
            Some(SegmentSample { bytes, active_fetch_us, total_fetch_us, media_ms, buffer })
        } else {
            None
        }
    }

    /// The transfer rate in kilobits per second.
    pub open spec fn wire_rate_kbps(&self) -> int {
        (self.bytes * 8_000) / larger(self.active_fetch_us as int, 1)
    }

    /// The transfer rate in kilobits per second, rounded down.
    pub fn network_kbps(&self) -> (r: u64)
        ensures
            r == (if self.wire_rate_kbps() > u64::MAX {
                u64::MAX as int
            } else {
                self.wire_rate_kbps()
            }),
    {
        let us: u128 = if self.active_fetch_us == 0 {
            1
        } else {
            self.active_fetch_us as u128
        };
        let kbps: u128 = self.bytes as u128 * 8_000 / us;
        if kbps > u64::MAX as u128 {
            u64::MAX
        } else {
            kbps as u64
        }
    }

    /// Acquisition time over content time, in thousandths.
    pub open spec fn production_pm(&self) -> int {
        self.total_fetch_us as int / larger(self.media_ms as int, 1)
    }

    /// Acquisition time over content time, in thousandths, rounded down.
    ///
    /// Microseconds over milliseconds are thousandths already.
    pub fn production_ratio_pm(&self) -> (r: u64)
        ensures
            r == self.production_pm(),
    {
        let ms: u64 = if self.media_ms == 0 {
            1
        } else {
            self.media_ms as u64
        };
        self.total_fetch_us / ms
    }
}

/// A physical response: the rate its playlist declares and the raster that was decoded.
#[derive(Clone, Copy, Debug, PartialEq, Eq, Structural)]
pub struct ObservedHlsVariant {
    pub declared_bps: u64,
    pub width: i32,
    pub height: i32,
}

impl ObservedHlsVariant {
    /// A response is physical when every axis is positive.
    pub open spec fn is_physical(declared_bps: u64, width: i32, height: i32) -> bool {
        declared_bps > 0 && width > 0 && height > 0
    }

    /// The response with these axes, or `None` where one of them is not positive.
    pub fn new(declared_bps: u64, width: i32, height: i32) -> (r: Option<ObservedHlsVariant>)
        ensures
            r == (if ObservedHlsVariant::is_physical(declared_bps, width, height) {
                Some((ObservedHlsVariant { declared_bps, width, height }))
            } else {
                None
            }),
    {
        if declared_bps > 0 && width > 0 && height > 0 {
            Some(ObservedHlsVariant { declared_bps, width, height })
        } else {
            None
        }
    }

    /// Strict Pareto dominance: no axis lower, and at least one higher.
    pub open spec fn dominates(self, other: ObservedHlsVariant) -> bool {
        &&& self.declared_bps >= other.declared_bps
        &&& self.width >= other.width
        &&& self.height >= other.height
        &&& self != other
    }

    /// Whether this response is better than `other` on some axis and worse on none.
    pub fn strictly_dominates(self, other: ObservedHlsVariant) -> (r: bool)
        ensures
            r == self.dominates(other),
    {
        self.declared_bps >= other.declared_bps && self.width >= other.width && self.height
            >= other.height && (self.declared_bps > other.declared_bps || self.width > other.width
            || self.height > other.height)
    }
}

/// A step of the quality ladder: the rate that it asks for and the box that bounds its raster.
#[derive(Clone, Copy, Debug, PartialEq, Eq, Structural)]
pub struct Rung {
    pub kbps: u32,
    pub max_width: u16,
    pub max_height: u16,
}

/// Which way a proposal moves on the ladder.
#[derive(Clone, Copy, Debug, PartialEq, Eq, Structural)]
pub enum Direction {
    Up,
    Down,
}

/// A rung that a policy wants to try, and which way it lies.
#[derive(Clone, Copy, Debug, PartialEq, Eq, Structural)]
pub struct Proposal {
    pub rung: Rung,
    pub direction: Direction,
}

/// What a policy answers to a segment.
#[derive(Clone, Copy, Debug, PartialEq, Eq, Structural)]
pub enum Decision {
    /// Stay on the current rung.
    Hold,
    /// Open a candidate on another rung.
    Prime(Proposal),
}

/// What a policy says of a candidate's object.
#[derive(Clone, Copy, Debug, PartialEq, Eq, Structural)]
pub enum CandidateVerdict {
    /// The candidate can carry playback.
    Ready,
    /// The object also paid for the encoder's start: one ordinary object has to be graded too.
    SetupBearing,
    /// The candidate cannot carry playback.
    Refused,
}

/// Why a candidate was abandoned.
#[derive(Clone, Copy, Debug, PartialEq, Eq, Structural)]
pub enum RejectCause {
    /// The transaction ran out of its budget before there was a verdict.
    Censored,
    /// The candidate itself did not qualify.
    Candidate,
}

/// A playback policy: a deterministic machine that hears of segments and answers with decisions.
///
/// The policy's own arithmetic is its own. All that a plant relies on is that each answer is a
/// function of the policy's state and of the question, so that the same run has the same outcome
/// every time.
pub trait Controller {
    /// What the policy remembers.
    type State;

    spec fn state(&self) -> Self::State;

    /// The rung being played.
    spec fn playing(s: Self::State) -> Rung;

    /// The state after hearing which response is being decoded, at which transfer rate.
    spec fn after_variant(
        s: Self::State,
        active: ObservedHlsVariant,
        network_kbps: u64,
    ) -> Self::State;

    /// The state after a segment, and the answer to it.
    spec fn after_segment(s: Self::State, sample: SegmentSample, now_ms: u64) -> (
        Self::State,
        Decision,
    );

    /// The wall time that an upward transaction may spend from a reserve, if any.
    spec fn budget(s: Self::State, reserve_ms: i64) -> Option<i64>;

    /// The state after an upward transaction was given its budget, and whether it still stands.
    spec fn after_arming(s: Self::State, proposal: Proposal, budget_ms: i64) -> (Self::State, bool);

    /// What an upward candidate's first object is worth.
    spec fn boundary_worth(
        s: Self::State,
        proposal: Proposal,
        sample: SegmentSample,
        declared_bps: u64,
    ) -> CandidateVerdict;

    /// What a candidate's ordinary object is worth.
    spec fn worth(
        s: Self::State,
        proposal: Proposal,
        sample: SegmentSample,
        declared_bps: u64,
    ) -> CandidateVerdict;

    /// The state after a candidate was abandoned.
    spec fn after_reject(
        s: Self::State,
        proposal: Proposal,
        cause: RejectCause,
        closed_at_ms: u64,
    ) -> Self::State;

    /// The state after a candidate took over, and whether the policy let it.
    spec fn after_commit(
        s: Self::State,
        proposal: Proposal,
        sample: SegmentSample,
        observed: ObservedHlsVariant,
        closed_at_ms: u64,
    ) -> (Self::State, bool);

    fn current(&self) -> (r: Rung)
        ensures
            r == Self::playing(self.state()),
    ;

    fn observe_active_variant(&mut self, active: ObservedHlsVariant, network_kbps: u64)
        ensures
            final(self).state() == Self::after_variant(old(self).state(), active, network_kbps),
    ;

    fn observe(&mut self, sample: SegmentSample, now_ms: u64) -> (r: Decision)
        ensures
            (final(self).state(), r) == Self::after_segment(old(self).state(), sample, now_ms),
    ;

    fn exploration_budget_ms(&self, reserve_ms: i64) -> (r: Option<i64>)
        ensures
            r == Self::budget(self.state(), reserve_ms),
    ;

    fn set_executed_exploration_budget(&mut self, proposal: Proposal, budget_ms: i64) -> (r: bool)
        ensures
            (final(self).state(), r) == Self::after_arming(
                old(self).state(),
                proposal,
                budget_ms,
            ),
    ;

    fn candidate_boundary_verdict(
        &self,
        proposal: Proposal,
        sample: SegmentSample,
        declared_bps: u64,
    ) -> (r: CandidateVerdict)
        ensures
            r == Self::boundary_worth(self.state(), proposal, sample, declared_bps),
    ;

    fn candidate_verdict(
        &self,
        proposal: Proposal,
        sample: SegmentSample,
        declared_bps: u64,
    ) -> (r: CandidateVerdict)
        ensures
            r == Self::worth(self.state(), proposal, sample, declared_bps),
    ;

    fn reject(&mut self, proposal: Proposal, cause: RejectCause, closed_at_ms: u64)
        ensures
            final(self).state() == Self::after_reject(
                old(self).state(),
                proposal,
                cause,
                closed_at_ms,
            ),
    ;

    fn commit_candidate(
        &mut self,
        proposal: Proposal,
        sample: SegmentSample,
        observed: ObservedHlsVariant,
        closed_at_ms: u64,
    ) -> (r: bool)
        ensures
            (final(self).state(), r) == Self::after_commit(
                old(self).state(),
                proposal,
                sample,
                observed,
                closed_at_ms,
            ),
    ;
}

} // verus!
