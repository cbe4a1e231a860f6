//! The physical pipeline, as parameters: two byte-capped queues that feed one playable reserve, a
//! link whose capacity changes over time, and what it costs to try another rung.
//!
//! The demuxer blocks on either queue's byte cap, and each lane may run a fixed lead ahead of the
//! presented position. The reserve that playback can reach is the smaller of what the two lanes
//! can hold:
//!
//! ```text
//! b_max = min(video_lead + video_queue_bits / video_rate,
//!             audio_lead + audio_queue_bits / audio_rate)
//! ```
//!
//! A kilobit per second is a bit per millisecond, so bits over kbps are milliseconds already and
//! no scale factor stands anywhere in this model.
//!
//! Nothing here is policy. A plant that took its ceiling from a policy's own arithmetic could
//! only ever agree with it.
use vstd::prelude::*;

use crate::abr::{Direction, ObservedHlsVariant};
use crate::arith::{bits_to_ms, clamp_i64, clamp_u64, ms_for_bits, plus_i64, smaller, times_u64};

verus! {

/// Byte cap of the video queue.
pub const VIDEO_QUEUE_BYTES: u64 = 10 * 1024 * 1024;

/// Byte cap of the video queue when the device census was taken.
///
/// A census grades the configuration that it was taken in: what it recorded is compared with the
/// plant at this size, not at the size that ships.
pub const CENSUS_VIDEO_QUEUE_BYTES: u64 = 8 * 1024 * 1024;

/// Byte cap of the audio queue.
pub const AUDIO_QUEUE_BYTES: u64 = 1024 * 1024;

/// How far the video lane is fed ahead of the presented position.
pub const VIDEO_LEAD_MS: i64 = 1_600;

/// How far the audio lane is fed ahead: the video lane's lead and two seconds of slack.
pub const AUDIO_LEAD_MS: i64 = 3_600;

/// What was measured at one rung. The rates are different quantities, and none of them is the
/// rate that the rung asks for.
#[derive(Clone, Copy, Debug, PartialEq, Eq, Structural)]
pub struct OperatingPoint {
    /// What the network carries: the transport stream, container overhead and all.
    pub ts_kbps: u32,
    /// What the video queue holds: elementary bytes.
    pub video_es_kbps: u32,
    /// What the audio queue holds: elementary bytes.
    pub audio_es_kbps: u32,
    /// Acquisition time that is not transfer.
    pub overhead_ms: i64,
    /// The rate that the master playlist declares.
    pub declared_kbps: u32,
    pub decoded_width: u16,
    pub decoded_height: u16,
}

impl OperatingPoint {
    /// Whether the point carries a physical response.
    pub open spec fn is_physical(self) -> bool {
        self.declared_kbps > 0 && self.decoded_width > 0 && self.decoded_height > 0
    }

    /// The physical response at this point.
    pub open spec fn response(self) -> ObservedHlsVariant {
        ObservedHlsVariant {
            declared_bps: (self.declared_kbps * 1_000) as u64,
            width: self.decoded_width as i32,
            height: self.decoded_height as i32,
        }
    }

    /// The physical response at this point.
    pub fn variant(self) -> (r: ObservedHlsVariant)
        requires
            self.is_physical(),
        ensures
            r == self.response(),
            r.declared_bps == self.declared_kbps * 1_000,
    {
        ObservedHlsVariant::new(
            self.declared_kbps as u64 * 1_000,
            self.decoded_width as i32,
            self.decoded_height as i32,
        ).unwrap()
    }
}

/// What one candidate transaction costs: wall milliseconds in which playback is not refilled.
#[derive(Clone, Copy, Debug, PartialEq, Eq, Structural)]
pub struct TransactionCost {
    /// Asking for the candidate and reading its playlists.
    pub control_plane_ms: i64,
    /// Acquiring the candidate's first object.
    pub warmup_acq_ms: i64,
    /// Acquiring the second object, where one is fetched.
    pub graded_acq_ms: i64,
}

/// The four ways a transaction can go. A leg that is absent was never measured.
#[derive(Clone, Copy, Debug, PartialEq, Eq, Structural)]
pub struct TransactionModel {
    pub up_commit: Option<TransactionCost>,
    pub up_reject: Option<TransactionCost>,
    pub down_commit: Option<TransactionCost>,
    pub down_reject: Option<TransactionCost>,
}

impl Default for TransactionModel {
    fn default() -> (r: TransactionModel)
        ensures
            r.up_commit is None,
            r.up_reject is None,
            r.down_commit is None,
            r.down_reject is None,
    {
        TransactionModel { up_commit: None, up_reject: None, down_commit: None, down_reject: None }
    }
}

impl TransactionModel {
    /// Nothing measured: enough for a run that never tries another rung.
    pub fn unmeasured() -> (r: TransactionModel)
        ensures
            forall|direction: Direction, commit: bool|
                (#[trigger] r.cost(direction, commit)) is None,
    {
        TransactionModel { up_commit: None, up_reject: None, down_commit: None, down_reject: None }
    }

    /// The median cost of each leg that a device has produced.
    ///
    /// A downward transaction that is refused has no fixed cost to record: it ends at a deadline
    /// that depends on the reserve. Its leg stays absent, since a recorded zero would model the
    /// most expensive outcome as free.
    pub fn measured() -> (r: TransactionModel)
        ensures
            r.cost(Direction::Up, true) == Some(
                (TransactionCost {
                    control_plane_ms: 6,
                    warmup_acq_ms: 1180,
                    graded_acq_ms: 1276,
                }),
            ),
            r.cost(Direction::Up, false) == Some(
                (TransactionCost { control_plane_ms: 6, warmup_acq_ms: 1442, graded_acq_ms: 0 }),
            ),
            r.cost(Direction::Down, true) == Some(
                (TransactionCost { control_plane_ms: 6, warmup_acq_ms: 676, graded_acq_ms: 0 }),
            ),
            r.cost(Direction::Down, false) is None,
    {
        TransactionModel {
            up_commit: Some(
                TransactionCost {
                    control_plane_ms: 6,
                    warmup_acq_ms: 1180,
                    graded_acq_ms: 1276,
                },
            ),
            up_reject: Some(
                TransactionCost { control_plane_ms: 6, warmup_acq_ms: 1442, graded_acq_ms: 0 },
            ),
            down_commit: Some(
                TransactionCost { control_plane_ms: 6, warmup_acq_ms: 676, graded_acq_ms: 0 },
            ),
            down_reject: None,
        }
    }

    /// The cost of a transaction in this direction with this outcome, if it was measured.
    pub open spec fn cost(self, direction: Direction, commit: bool) -> Option<TransactionCost> {
        match (direction, commit) {
            (Direction::Up, true) => self.up_commit,
            (Direction::Up, false) => self.up_reject,
            (Direction::Down, true) => self.down_commit,
            (Direction::Down, false) => self.down_reject,
        }
    }

    /// The cost of a transaction in this direction with this outcome, if it was measured.
    pub fn leg(&self, direction: Direction, commit: bool) -> (r: Option<TransactionCost>)
        ensures
            r == self.cost(direction, commit),
    {
        match (direction, commit) {
            (Direction::Up, true) => self.up_commit,
            (Direction::Up, false) => self.up_reject,
            (Direction::Down, true) => self.down_commit,
            (Direction::Down, false) => self.down_reject,
        }
    }
}

/// The pipeline's queues, leads and segment length.
#[derive(Clone, Copy, Debug, PartialEq, Eq, Structural)]
pub struct Plant {
    pub video_queue_bytes: u64,
    pub audio_queue_bytes: u64,
    pub video_lead_ms: i64,
    pub audio_lead_ms: i64,
    /// Content duration of one segment.
    pub segment_ms: i64,
}

impl Default for Plant {
    fn default() -> (r: Plant)
        ensures
            r == (Plant {
                video_queue_bytes: VIDEO_QUEUE_BYTES,
                audio_queue_bytes: AUDIO_QUEUE_BYTES,
                video_lead_ms: VIDEO_LEAD_MS,
                audio_lead_ms: AUDIO_LEAD_MS,
                segment_ms: 2_000,
            }),
            r.is_physical(),
    {
        Plant {
            video_queue_bytes: VIDEO_QUEUE_BYTES,
            audio_queue_bytes: AUDIO_QUEUE_BYTES,
            video_lead_ms: VIDEO_LEAD_MS,
            audio_lead_ms: AUDIO_LEAD_MS,
            segment_ms: 2_000,
        }
    }
}

/// The most that one lane can hold: its lead, and its queue at the lane's elementary rate.
pub open spec fn lane_ceiling(lead_ms: i64, queue_bytes: u64, es_kbps: u32) -> int {
    clamp_i64(lead_ms + bits_to_ms(clamp_u64(queue_bytes * 8), es_kbps as int))
}

fn lane_ms(lead_ms: i64, queue_bytes: u64, es_kbps: u32) -> (r: i64)
    ensures
        r == lane_ceiling(lead_ms, queue_bytes, es_kbps),
{
    plus_i64(lead_ms, ms_for_bits(times_u64(queue_bytes, 8), es_kbps))
}

impl Plant {
    /// Whether segments hold content and every lane is fed ahead of what is presented. A plant that
    /// is not physical runs all the same, with a reserve that can be owed.
    pub open spec fn is_physical(self) -> bool {
        self.segment_ms > 0 && self.video_lead_ms >= 0 && self.audio_lead_ms >= 0
    }

    /// The reserve that playback can reach: what the tighter of the two lanes can hold.
    pub open spec fn ceiling(self, point: OperatingPoint) -> int {
        smaller(
            lane_ceiling(self.video_lead_ms, self.video_queue_bytes, point.video_es_kbps),
            lane_ceiling(self.audio_lead_ms, self.audio_queue_bytes, point.audio_es_kbps),
        )
    }

    /// The reserve that playback can reach, from queue sizes and elementary rates alone.
    pub fn b_max_ms(&self, point: &OperatingPoint) -> (r: i64)
        ensures
            r == self.ceiling(*point),
    {
        let video: i64 = lane_ms(self.video_lead_ms, self.video_queue_bytes, point.video_es_kbps);
        let audio: i64 = lane_ms(self.audio_lead_ms, self.audio_queue_bytes, point.audio_es_kbps);
        if video < audio {
            video
        } else {
            audio
        }
    }
}

/// A capacity schedule in virtual time: each leg holds until an absolute instant, and the last one
/// for ever.
#[derive(Clone, Debug)]
pub struct Trace {
    legs: Vec<(i64, u32)>,
}

/// A leg as a schedule keeps it: a capacity of nothing counts as one.
pub open spec fn kept_leg(leg: (i64, u32)) -> (i64, u32) {
    (
        leg.0,
        if leg.1 == 0 {
            1u32
        } else {
            leg.1
        },
    )
}

/// The first leg from `from` on whose end still lies ahead of `now_ms`, or the number of legs.
pub open spec fn leg_at(legs: Seq<(i64, u32)>, now_ms: int, from: int) -> int
    decreases legs.len() - from,
{
    if 0 <= from < legs.len() && now_ms >= legs[from].0 {
        leg_at(legs, now_ms, from + 1)
    } else {
        from
    }
}

/// The capacity at `now_ms`.
pub open spec fn capacity_at(legs: Seq<(i64, u32)>, now_ms: int) -> u32 {
    let leg = leg_at(legs, now_ms, 0);
    if leg < legs.len() {
        legs[leg].1
    } else if legs.len() > 0 {
        legs.last().1
    } else {
        1
    }
}

/// The end of the last leg.
pub open spec fn horizon_of(legs: Seq<(i64, u32)>) -> i64 {
    if legs.len() > 0 {
        legs.last().0
    } else {
        0
    }
}

impl View for Trace {
    type V = Seq<(i64, u32)>;

    closed spec fn view(&self) -> Seq<(i64, u32)> {
        self.legs@
    }
}

impl Trace {
    /// The schedule with these legs, each the millisecond that it ends at and its capacity. A
    /// capacity of nothing counts as one.
    pub fn new(legs: &[(i64, u32)]) -> (r: Trace)
        ensures
            r@.len() == legs@.len(),
            forall|i: int|
                0 <= i < legs@.len() ==> #[trigger] r@[i] == kept_leg(legs@[i]),
    {
        let mut kept: Vec<(i64, u32)> = Vec::new();
        let mut i: usize = 0;
        while i < legs.len()
            invariant
                i <= legs@.len(),
                kept@.len() == i,
                forall|j: int|
                    0 <= j < i ==> #[trigger] kept@[j] == kept_leg(legs@[j]),
            decreases legs@.len() - i,
        {
            let (until, kbps): (i64, u32) = legs[i];
            kept.push((until, if kbps == 0 { 1 } else { kbps }));
            i = i + 1;
        }
        Trace { legs: kept }
    }

    /// The capacity at `now_ms`.
    pub fn capacity_kbps(&self, now_ms: i64) -> (r: u32)
        ensures
            r == capacity_at(self@, now_ms as int),
    {
        let mut i: usize = 0;
        while i < self.legs.len()
            invariant
                i <= self@.len(),
                self@ == self.legs@,
                leg_at(self@, now_ms as int, 0) == leg_at(self@, now_ms as int, i as int),
            decreases self@.len() - i,
        {
            let (until, kbps): (i64, u32) = self.legs[i];
            if now_ms < until {
                return kbps;
            }
            i = i + 1;
        }
        if self.legs.len() > 0 {
            self.legs[self.legs.len() - 1].1
        } else {
            1
        }
    }

    /// The end of the schedule.
    pub fn horizon_ms(&self) -> (r: i64)
        ensures
            r == horizon_of(self@),
    {
        if self.legs.len() > 0 {
            self.legs[self.legs.len() - 1].0
        } else {
            0
        }
    }
}

} // verus!
