//! A policy and the plant in a closed loop, in virtual time.
//!
//! Per segment of `d` milliseconds, at transport rate `R` over a link of capacity `C`:
//!
//! ```text
//! transfer = R * d / C
//! acquire  = transfer + overhead           request to the end of demuxing
//! wall     = max(acquire, B + d - b_max)   a full queue blocks the demuxer
//! stall    = max(0, wall - B)
//! B'       = min(b_max, max(0, B - wall) + d)
//! ```
//!
//! The policy is told what the segment took to ACQUIRE; the plant's clock moves by what it took on
//! the WALL. In a settled, backpressured state the two differ, and a policy that was told wall time
//! would read the same ratio at every rung and on every link.
//!
//! Trying another rung is not free. While a candidate is being fetched the current stream is not
//! read, so a transaction drains the reserve by its whole wall time. Its objects are private until
//! the candidate takes over: a refused candidate adds nothing to the reserve, an accepted one adds
//! all of its objects at once.
use vstd::prelude::*;

use crate::abr::calibration::Calibration;
use crate::abr::plant::{
    capacity_at, horizon_of, OperatingPoint, Plant, Trace, TransactionCost, TransactionModel,
};
use crate::abr::laws::{
    deepest_debt, law_round_keeps_a_run_sound, leg_ms, lemma_attempt_not_negative, lemma_debts_fit,
    lemma_measured_point, lemma_one_more, lemma_run_begins_sound, lemma_segment_keeps_a_run_sound,
    lemma_settled_attempt, lemma_step_bounded, longest_attempt, run_fits, run_sound,
};
use crate::abr::{
    BufferSnapshot, CandidateVerdict, Controller, Decision, Direction, ObservedHlsVariant,
    Proposal, RejectCause, SegmentSample,
};
use crate::text::{decimal, push_decimal_i64};
use crate::arith::{
    bits_to_ms, clamp_i64, clamp_u64, larger, minus_i64, ms_for_bits, plus_i64, smaller, times_i64,
    times_u64,
};

verus! {

// ---- one segment ----------------------------------------------------------------------------
/// One segment, as the plant saw it.
#[derive(Clone, Copy, Debug, PartialEq, Eq, Structural)]
pub struct Observed {
    /// The instant at which the segment had landed.
    pub at_ms: i64,
    pub rung_kbps: u32,
    pub capacity_kbps: u32,
    pub ts_kbps: u32,
    /// From the request to the end of demuxing.
    pub acquire_ms: i64,
    /// How far the clock moved, backpressure included.
    pub wall_ms: i64,
    /// The reserve once the segment had landed.
    pub buf_ms: i64,
    pub b_max_ms: i64,
    pub stall_ms: i64,
}

/// [`Observed`] over the integers.
pub struct ObservedView {
    pub at_ms: int,
    pub rung_kbps: u32,
    pub capacity_kbps: u32,
    pub ts_kbps: u32,
    pub acquire_ms: int,
    pub wall_ms: int,
    pub buf_ms: int,
    pub b_max_ms: int,
    pub stall_ms: int,
}

impl View for Observed {
    type V = ObservedView;

    open spec fn view(&self) -> ObservedView {
        ObservedView {
            at_ms: self.at_ms as int,
            rung_kbps: self.rung_kbps,
            capacity_kbps: self.capacity_kbps,
            ts_kbps: self.ts_kbps,
            acquire_ms: self.acquire_ms as int,
            wall_ms: self.wall_ms as int,
            buf_ms: self.buf_ms as int,
            b_max_ms: self.b_max_ms as int,
            stall_ms: self.stall_ms as int,
        }
    }
}

/// The bits of one segment on the wire.
pub open spec fn segment_bits(ts_kbps: u32, segment_ms: int) -> int {
    clamp_u64(ts_kbps * larger(segment_ms, 0))
}

/// How long a segment takes to transfer.
pub open spec fn transfer_ms(ts_kbps: u32, segment_ms: int, capacity_kbps: u32) -> int {
    bits_to_ms(segment_bits(ts_kbps, segment_ms), capacity_kbps as int)
}

/// How long a segment takes to acquire.
pub open spec fn acquisition_ms(
    point: OperatingPoint,
    segment_ms: int,
    capacity_kbps: u32,
) -> int {
    larger(
        clamp_i64(transfer_ms(point.ts_kbps, segment_ms, capacity_kbps) + point.overhead_ms),
        1,
    )
}

/// How long a segment takes on the wall: the demuxer blocks rather than exceed a queue's cap.
pub open spec fn wall_ms(
    plant: Plant,
    point: OperatingPoint,
    capacity_kbps: u32,
    buf: int,
) -> int {
    let blocked = clamp_i64(clamp_i64(buf + plant.segment_ms) - plant.ceiling(point));
    larger(larger(acquisition_ms(point, plant.segment_ms as int, capacity_kbps), blocked), 1)
}

/// The reserve once a segment has landed.
pub open spec fn reserve_after(plant: Plant, point: OperatingPoint, buf: int, wall: int) -> int {
    smaller(larger(buf - wall, 0) + plant.segment_ms, plant.ceiling(point))
}

/// What the plant sees of the segment that is asked for at `now` with the reserve at `buf`.
pub open spec fn segment_seen(
    plant: Plant,
    legs: Seq<(i64, u32)>,
    point: OperatingPoint,
    now: int,
    buf: int,
    rung_kbps: u32,
) -> ObservedView {
    let capacity_kbps = capacity_at(legs, now);
    let wall = wall_ms(plant, point, capacity_kbps, buf);
    ObservedView {
        at_ms: now + wall,
        rung_kbps,
        capacity_kbps,
        ts_kbps: point.ts_kbps,
        acquire_ms: acquisition_ms(point, plant.segment_ms as int, capacity_kbps),
        wall_ms: wall,
        buf_ms: reserve_after(plant, point, buf, wall),
        b_max_ms: plant.ceiling(point),
        stall_ms: larger(wall - buf, 0),
    }
}

/// What the policy is told of that segment: its transfer and its ACQUISITION, never the wall.
pub open spec fn segment_told(
    plant: Plant,
    legs: Seq<(i64, u32)>,
    point: OperatingPoint,
    now: int,
    buf: int,
) -> SegmentSample {
    let capacity_kbps = capacity_at(legs, now);
    let d = plant.segment_ms;
    let acquire = acquisition_ms(point, d as int, capacity_kbps);
    let transfer = transfer_ms(point.ts_kbps, d as int, capacity_kbps);
    let wall = wall_ms(plant, point, capacity_kbps, buf);
    SegmentSample {
        bytes: larger(segment_bits(point.ts_kbps, d as int) / 8, 1) as u64,
        active_fetch_us: clamp_u64(larger(transfer, 1) * 1_000) as u64,
        total_fetch_us: clamp_u64(acquire * 1_000) as u64,
        media_ms: if 0 <= d <= u32::MAX {
            d as u32
        } else {
            2_000
        },
        buffer: BufferSnapshot::level(reserve_after(plant, point, buf, wall) as i64),
    }
}

/// Whether the clock and the reserve stay in the machine's range over the next segment.
pub open spec fn step_fits(
    plant: Plant,
    legs: Seq<(i64, u32)>,
    point: OperatingPoint,
    now: int,
    buf: int,
) -> bool {
    let wall = wall_ms(plant, point, capacity_at(legs, now), buf);
    &&& now + wall <= i64::MAX
    &&& wall - buf <= i64::MAX
    &&& i64::MIN <= larger(buf - wall, 0) + plant.segment_ms <= i64::MAX
}

/// Fetches one segment and advances the plant.
pub fn step(
    plant: &Plant,
    trace: &Trace,
    point: &OperatingPoint,
    now_ms: &mut i64,
    buf_ms: &mut i64,
    rung_kbps: u32,
) -> (r: (Observed, SegmentSample))
    requires
        plant.segment_ms != 0,
        step_fits(*plant, trace@, *point, *old(now_ms) as int, *old(buf_ms) as int),
    ensures
        r.0@ == segment_seen(
            *plant,
            trace@,
            *point,
            *old(now_ms) as int,
            *old(buf_ms) as int,
            rung_kbps,
        ),
        r.1 == segment_told(
            *plant,
            trace@,
            *point,
            *old(now_ms) as int,
            *old(buf_ms) as int,
        ),
        *final(now_ms) == r.0.at_ms,
        *final(buf_ms) == r.0.buf_ms,
{
    let d: i64 = plant.segment_ms;
    let capacity: u32 = trace.capacity_kbps(*now_ms);
    let b_max: i64 = plant.b_max_ms(point);

    let bits: u64 = times_u64(
        point.ts_kbps as u64,
        if d > 0 {
            d as u64
        } else {
            0
        },
    );
    let fetch_ms: i64 = ms_for_bits(bits, capacity);
    let acquire_ms: i64 = plus_i64(fetch_ms, point.overhead_ms).max(1);

    let blocked_until: i64 = minus_i64(plus_i64(*buf_ms, d), b_max);
    let wall_ms: i64 = acquire_ms.max(blocked_until).max(1);

    let stall_ms: i64 = (wall_ms - *buf_ms).max(0);
    let drained: i64 = if *buf_ms > wall_ms {
        *buf_ms - wall_ms
    } else {
        0
    };
    *buf_ms = (drained + d).min(b_max);
    *now_ms = *now_ms + wall_ms;

    let observed = Observed {
        at_ms: *now_ms,
        rung_kbps,
        capacity_kbps: capacity,
        ts_kbps: point.ts_kbps,
        acquire_ms,
        wall_ms,
        buf_ms: *buf_ms,
        b_max_ms: b_max,
        stall_ms,
    };
    let media_ms: u32 = if 0 <= d && d <= u32::MAX as i64 {
        d as u32
    } else {
        2_000
    };
    let sample = SegmentSample::new(
        (bits / 8).max(1),
        times_u64(fetch_ms.max(1) as u64, 1_000),
        times_u64(acquire_ms as u64, 1_000),
        media_ms,
        BufferSnapshot::filled_to(*buf_ms),
    );
    (observed, sample.unwrap())
}

// ---- one candidate --------------------------------------------------------------------------
/// What became of trying a candidate at one transaction cost.
#[derive(Clone, Copy, Debug, PartialEq, Eq, Structural)]
pub struct CandidateAttempt {
    /// Wall time, and its two parts.
    pub spent_ms: i64,
    pub control_ms: i64,
    pub media_ms: i64,
    /// Objects fetched for the candidate.
    pub staged_objects: u32,
    /// What the policy was told of the last of them.
    pub final_sample: Option<SegmentSample>,
    /// The candidate qualified.
    pub commits: bool,
    /// The budget ran out first.
    pub expired: bool,
}

/// What a transaction is tried with: the candidate, the link and the reserve at its start.
pub struct Terms {
    pub plant: Plant,
    pub point: OperatingPoint,
    pub capacity_kbps: u32,
    pub reserve_ms: i64,
    pub cost: TransactionCost,
    pub budget_ms: Option<i64>,
}

impl Terms {
    pub open spec fn segment_ms(self) -> int {
        larger(self.plant.segment_ms as int, 1)
    }

    pub open spec fn bits(self) -> int {
        segment_bits(self.point.ts_kbps, self.segment_ms())
    }

    pub open spec fn transfer_ms(self) -> int {
        bits_to_ms(self.bits(), self.capacity_kbps as int)
    }

    /// What an object of the candidate takes to acquire once its encoder runs.
    pub open spec fn steady_ms(self) -> int {
        larger(clamp_i64(self.transfer_ms() + self.point.overhead_ms), 1)
    }

    /// The wall time that the transaction may spend.
    pub open spec fn deadline_ms(self) -> int {
        match self.budget_ms {
            Some(ms) => larger(ms as int, 0),
            None => i64::MAX as int,
        }
    }

    pub open spec fn control_ms(self) -> int {
        larger(self.cost.control_plane_ms as int, 0)
    }

    /// What the first object takes.
    pub open spec fn warmup_ms(self) -> int {
        larger(self.steady_ms(), self.cost.warmup_acq_ms as int)
    }

    /// What the second object takes.
    pub open spec fn graded_ms(self) -> int {
        larger(self.steady_ms(), self.cost.graded_acq_ms as int)
    }

    /// When the first object has landed.
    pub open spec fn boundary_end_ms(self) -> int {
        clamp_i64(self.control_ms() + self.warmup_ms())
    }

    /// When the second object has landed.
    pub open spec fn graded_end_ms(self) -> int {
        clamp_i64(self.boundary_end_ms() + self.graded_ms())
    }

    /// What the policy is told of an object, with `staged` of them fetched and `spent` gone by.
    pub open spec fn told(self, acquire: int, staged: int, spent: int) -> SegmentSample {
        let filled = clamp_i64(self.reserve_ms + clamp_i64(self.segment_ms() * staged));
        let buffered = larger(clamp_i64(filled - spent), 0);
        SegmentSample {
            bytes: larger(self.bits() / 8, 1) as u64,
            active_fetch_us: clamp_u64(larger(self.transfer_ms(), 1) * 1_000) as u64,
            total_fetch_us: clamp_u64(
                larger(larger(acquire, self.transfer_ms()), 1) * 1_000,
            ) as u64,
            media_ms: smaller(self.segment_ms(), u32::MAX as int) as u32,
            buffer: BufferSnapshot::level(buffered as i64),
        }
    }

    /// What the policy is told of the first object.
    pub open spec fn boundary(self) -> SegmentSample {
        self.told(self.warmup_ms(), 1, self.boundary_end_ms())
    }

    /// What the policy is told of the second object.
    pub open spec fn graded(self) -> SegmentSample {
        self.told(self.graded_ms(), 2, self.graded_end_ms())
    }

    /// The rate that the candidate's playlist declares.
    pub open spec fn declared_bps(self) -> u64 {
        (self.point.declared_kbps * 1_000) as u64
    }

    fn segment_length(&self) -> (r: i64)
        ensures
            r == self.segment_ms(),
    {
        self.plant.segment_ms.max(1)
    }

    fn wire_bits(&self) -> (r: u64)
        ensures
            r == self.bits(),
    {
        times_u64(self.point.ts_kbps as u64, self.segment_length() as u64)
    }

    fn fetch_ms(&self) -> (r: i64)
        ensures
            r == self.transfer_ms(),
            r >= 0,
    {
        ms_for_bits(self.wire_bits(), self.capacity_kbps)
    }

    fn tell(&self, acquire_ms: i64, staged_objects: u32, spent_ms: i64) -> (r: SegmentSample)
        ensures
            r == self.told(acquire_ms as int, staged_objects as int, spent_ms as int),
    {
        let d: i64 = self.segment_length();
        let fetch_ms: i64 = self.fetch_ms();
        let filled: i64 = plus_i64(self.reserve_ms, times_i64(d, staged_objects));
        let buffered: i64 = minus_i64(filled, spent_ms).max(0);
        let media_ms: u32 = if d <= u32::MAX as i64 {
            d as u32
        } else {
            u32::MAX
        };
        SegmentSample::new(
            (self.wire_bits() / 8).max(1),
            times_u64(fetch_ms.max(1) as u64, 1_000),
            times_u64(acquire_ms.max(fetch_ms).max(1) as u64, 1_000),
            media_ms,
            BufferSnapshot::filled_to(buffered),
        ).unwrap()
    }
}

/// [`Terms`] before a cost is chosen.
pub struct Setting {
    pub plant: Plant,
    pub point: OperatingPoint,
    pub capacity_kbps: u32,
    pub reserve_ms: i64,
    pub budget_ms: Option<i64>,
}

impl Setting {
    /// The terms at this cost.
    pub open spec fn at(self, cost: TransactionCost) -> Terms {
        Terms {
            plant: self.plant,
            point: self.point,
            capacity_kbps: self.capacity_kbps,
            reserve_ms: self.reserve_ms,
            cost,
            budget_ms: self.budget_ms,
        }
    }
}

/// What the policy makes of the candidate's first object.
pub open spec fn first_verdict<C: Controller>(
    s: C::State,
    proposal: Proposal,
    terms: Terms,
) -> CandidateVerdict {
    if proposal.direction == Direction::Up {
        C::boundary_worth(s, proposal, terms.boundary(), terms.declared_bps())
    } else {
        C::worth(s, proposal, terms.boundary(), terms.declared_bps())
    }
}

/// Whether the candidate's raster fits its rung and, on the way up, its response is better than
/// the active one.
pub open spec fn qualifies(
    proposal: Proposal,
    point: OperatingPoint,
    active: ObservedHlsVariant,
) -> bool {
    &&& point.decoded_width <= proposal.rung.max_width
    &&& point.decoded_height <= proposal.rung.max_height
    &&& proposal.direction == Direction::Up ==> point.response().dominates(active)
}

/// What becomes of trying `proposal` on these terms.
///
/// One budget covers the control plane, the first object and, only where that object also paid for
/// the encoder's start, one ordinary object more.
pub open spec fn attempt_of<C: Controller>(
    s: C::State,
    proposal: Proposal,
    terms: Terms,
    active: ObservedHlsVariant,
) -> CandidateAttempt {
    let first = first_verdict::<C>(s, proposal, terms);
    if terms.boundary_end_ms() > terms.deadline_ms() {
        let control = smaller(terms.control_ms(), terms.deadline_ms());
        CandidateAttempt {
            spent_ms: terms.deadline_ms() as i64,
            control_ms: control as i64,
            media_ms: (terms.deadline_ms() - control) as i64,
            staged_objects: 0,
            final_sample: None,
            commits: false,
            expired: true,
        }
    } else if first != CandidateVerdict::SetupBearing {
        CandidateAttempt {
            spent_ms: terms.boundary_end_ms() as i64,
            control_ms: terms.control_ms() as i64,
            media_ms: (terms.boundary_end_ms() - terms.control_ms()) as i64,
            staged_objects: 1,
            final_sample: Some(terms.boundary()),
            commits: qualifies(proposal, terms.point, active) && first == CandidateVerdict::Ready,
            expired: false,
        }
    } else if terms.graded_end_ms() > terms.deadline_ms() {
        CandidateAttempt {
            spent_ms: terms.deadline_ms() as i64,
            control_ms: terms.control_ms() as i64,
            media_ms: (terms.deadline_ms() - terms.control_ms()) as i64,
            staged_objects: 1,
            final_sample: Some(terms.boundary()),
            commits: false,
            expired: true,
        }
    } else {
        CandidateAttempt {
            spent_ms: terms.graded_end_ms() as i64,
            control_ms: terms.control_ms() as i64,
            media_ms: (terms.graded_end_ms() - terms.control_ms()) as i64,
            staged_objects: 2,
            final_sample: Some(terms.graded()),
            commits: qualifies(proposal, terms.point, active) && C::worth(
                s,
                proposal,
                terms.graded(),
                terms.declared_bps(),
            ) == CandidateVerdict::Ready,
            expired: false,
        }
    }
}

/// Tries a candidate at one transaction cost. Nothing is published and nothing is told to have
/// happened: the policy is only asked.
pub fn candidate_attempt<C: Controller>(
    controller: &C,
    proposal: Proposal,
    plant: &Plant,
    point: OperatingPoint,
    active: ObservedHlsVariant,
    capacity_kbps: u32,
    buffer_start_ms: i64,
    cost: TransactionCost,
    exploration_budget_ms: Option<i64>,
) -> (r: CandidateAttempt)
    requires
        proposal.direction == Direction::Up ==> point.is_physical(),
    ensures
        r == attempt_of::<C>(
            controller.state(),
            proposal,
            (Terms {
                plant: *plant,
                point,
                capacity_kbps,
                reserve_ms: buffer_start_ms,
                cost,
                budget_ms: exploration_budget_ms,
            }),
            active,
        ),
{
    let terms = Terms {
        plant: *plant,
        point,
        capacity_kbps,
        reserve_ms: buffer_start_ms,
        cost,
        budget_ms: exploration_budget_ms,
    };
    let steady_acquire_ms: i64 = plus_i64(terms.fetch_ms(), point.overhead_ms).max(1);
    let deadline: i64 = exploration_budget_ms.unwrap_or(i64::MAX).max(0);
    let control_ms: i64 = cost.control_plane_ms.max(0);

    let warmup_ms: i64 = steady_acquire_ms.max(cost.warmup_acq_ms.max(0));
    let boundary_end: i64 = plus_i64(control_ms, warmup_ms);
    if boundary_end > deadline {
        let control: i64 = control_ms.min(deadline);
        return CandidateAttempt {
            spent_ms: deadline,
            control_ms: control,
            media_ms: deadline - control,
            staged_objects: 0,
            final_sample: None,
            commits: false,
            expired: true,
        };
    }
    let declared_bps: u64 = point.declared_kbps as u64 * 1_000;
    let boundary = terms.tell(warmup_ms, 1, boundary_end);
    let mut verdict = if proposal.direction == Direction::Up {
        controller.candidate_boundary_verdict(proposal, boundary, declared_bps)
    } else {
        controller.candidate_verdict(proposal, boundary, declared_bps)
    };
    let mut spent: i64 = boundary_end;
    let mut staged_objects: u32 = 1;
    let mut final_sample = boundary;

    if verdict == CandidateVerdict::SetupBearing {
        let graded_ms: i64 = steady_acquire_ms.max(cost.graded_acq_ms.max(0));
        let graded_end: i64 = plus_i64(spent, graded_ms);
        if graded_end > deadline {
            return CandidateAttempt {
                spent_ms: deadline,
                control_ms,
                media_ms: deadline - control_ms,
                staged_objects,
                final_sample: Some(final_sample),
                commits: false,
                expired: true,
            };
        }
        spent = graded_end;
        staged_objects = 2;
        final_sample = terms.tell(graded_ms, staged_objects, spent);
        verdict = controller.candidate_verdict(proposal, final_sample, declared_bps);
    }
    let raster_ready = point.decoded_width <= proposal.rung.max_width && point.decoded_height
        <= proposal.rung.max_height;
    let quality_improves = proposal.direction != Direction::Up
        || point.variant().strictly_dominates(active);
    CandidateAttempt {
        spent_ms: spent,
        control_ms,
        media_ms: spent - control_ms,
        staged_objects,
        final_sample: Some(final_sample),
        commits: raster_ready && quality_improves && verdict == CandidateVerdict::Ready,
        expired: false,
    }
}

// ---- a run ----------------------------------------------------------------------------------
/// What a run produced.
#[derive(Clone, Debug)]
pub struct Report {
    pub samples: Vec<Observed>,
    /// The instant and the rung of each candidate that took over.
    pub commits: Vec<(i64, u32)>,
    pub primes: u32,
    pub rejects: u32,
    pub stall_ms_total: i64,
    pub stall_ms_max: i64,
    /// Wall time inside transactions, in its two parts.
    pub tx_control_plane_ms: i64,
    pub tx_media_ms: i64,
    /// Candidate objects that became playable.
    pub committed_candidate_objects: u32,
    pub first_decision: Option<Decision>,
    pub first_buf_ms: i64,
}

/// [`Report`] over the integers.
pub struct ReportView {
    pub samples: Seq<ObservedView>,
    pub commits: Seq<(int, u32)>,
    pub primes: int,
    pub rejects: int,
    pub stall_ms_total: int,
    pub stall_ms_max: int,
    pub tx_control_plane_ms: int,
    pub tx_media_ms: int,
    pub committed_candidate_objects: int,
    pub first_decision: Option<Decision>,
    pub first_buf_ms: int,
}

impl View for Report {
    type V = ReportView;

    open spec fn view(&self) -> ReportView {
        ReportView {
            samples: Seq::new(self.samples@.len(), |i: int| self.samples@[i]@),
            commits: Seq::new(
                self.commits@.len(),
                |i: int| (self.commits@[i].0 as int, self.commits@[i].1),
            ),
            primes: self.primes as int,
            rejects: self.rejects as int,
            stall_ms_total: self.stall_ms_total as int,
            stall_ms_max: self.stall_ms_max as int,
            tx_control_plane_ms: self.tx_control_plane_ms as int,
            tx_media_ms: self.tx_media_ms as int,
            committed_candidate_objects: self.committed_candidate_objects as int,
            first_decision: self.first_decision,
            first_buf_ms: self.first_buf_ms as int,
        }
    }
}

impl ReportView {
    /// Nothing has happened.
    pub open spec fn blank() -> ReportView {
        ReportView {
            samples: Seq::empty(),
            commits: Seq::empty(),
            primes: 0,
            rejects: 0,
            stall_ms_total: 0,
            stall_ms_max: 0,
            tx_control_plane_ms: 0,
            tx_media_ms: 0,
            committed_candidate_objects: 0,
            first_decision: None,
            first_buf_ms: 0,
        }
    }

    /// A segment was seen, and the policy answered.
    pub open spec fn with_segment(self, seen: ObservedView, decision: Decision) -> ReportView {
        ReportView {
            samples: self.samples.push(seen),
            stall_ms_total: self.stall_ms_total + seen.stall_ms,
            stall_ms_max: larger(self.stall_ms_max, seen.stall_ms),
            first_decision: if self.first_decision is None {
                Some(decision)
            } else {
                self.first_decision
            },
            first_buf_ms: if self.first_decision is None {
                seen.buf_ms
            } else {
                self.first_buf_ms
            },
            ..self
        }
    }

    /// A candidate was tried, which stalled playback for `stall`.
    pub open spec fn with_attempt(self, attempt: CandidateAttempt, stall: int) -> ReportView {
        ReportView {
            stall_ms_total: self.stall_ms_total + stall,
            stall_ms_max: larger(self.stall_ms_max, stall),
            tx_control_plane_ms: self.tx_control_plane_ms + attempt.control_ms,
            tx_media_ms: self.tx_media_ms + attempt.media_ms,
            ..self
        }
    }

    /// The policy asked for a candidate.
    pub open spec fn with_prime(self) -> ReportView {
        ReportView { primes: self.primes + 1, ..self }
    }

    /// The candidate was abandoned.
    pub open spec fn with_reject(self) -> ReportView {
        ReportView { rejects: self.rejects + 1, ..self }
    }

    /// The candidate took over, and its objects became playable.
    pub open spec fn with_commit(self, at: int, rung_kbps: u32, objects: u32) -> ReportView {
        ReportView {
            commits: self.commits.push((at, rung_kbps)),
            committed_candidate_objects: smaller(
                self.committed_candidate_objects + objects,
                u32::MAX as int,
            ),
            ..self
        }
    }
}

/// The smallest reserve over `samples`, or 0 where there is none.
pub open spec fn lowest_reserve(samples: Seq<ObservedView>) -> int
    decreases samples.len(),
{
    if samples.len() == 0 {
        0
    } else if samples.len() == 1 {
        samples[0].buf_ms
    } else {
        smaller(lowest_reserve(samples.drop_last()), samples.last().buf_ms)
    }
}

impl Default for Report {
    fn default() -> (r: Report)
        ensures
            r@ == ReportView::blank(),
    {
        let r = Report {
            samples: Vec::new(),
            commits: Vec::new(),
            primes: 0,
            rejects: 0,
            stall_ms_total: 0,
            stall_ms_max: 0,
            tx_control_plane_ms: 0,
            tx_media_ms: 0,
            committed_candidate_objects: 0,
            first_decision: None,
            first_buf_ms: 0,
        };
        assert(r@.samples =~= Seq::empty());
        assert(r@.commits =~= Seq::empty());
        r
    }
}

impl Report {
    /// The smallest reserve that any segment left, or 0 where there was no segment.
    pub fn min_buf_ms(&self) -> (r: i64)
        ensures
            r == lowest_reserve(self@.samples),
    {
        if self.samples.len() == 0 {
            return 0;
        }
        let mut least: i64 = self.samples[0].buf_ms;
        let mut i: usize = 1;
        assert(self@.samples.take(1)[0] == self@.samples[0]);
        while i < self.samples.len()
            invariant
                1 <= i <= self.samples@.len(),
                least == lowest_reserve(self@.samples.take(i as int)),
            decreases self.samples@.len() - i,
        {
            assert(self@.samples.take(i + 1).drop_last() =~= self@.samples.take(i as int));
            assert(self@.samples.take(i + 1).last() == self.samples@[i as int]@);
            least = least.min(self.samples[i].buf_ms);
            i = i + 1;
        }
        assert(self@.samples.take(i as int) =~= self@.samples);
        least
    }

    /// The rung of the last segment, or 0 where there was none.
    pub fn final_rung_kbps(&self) -> (r: u32)
        ensures
            r == (if self@.samples.len() == 0 {
                0
            } else {
                self@.samples.last().rung_kbps
            }),
    {
        if self.samples.len() == 0 {
            0
        } else {
            self.samples[self.samples.len() - 1].rung_kbps
        }
    }

    /// The rung of each segment.
    pub fn visited_kbps(&self) -> (r: Vec<u32>)
        ensures
            r@ == self@.samples.map_values(|seen: ObservedView| seen.rung_kbps),
    {
        let mut out: Vec<u32> = Vec::new();
        let mut i: usize = 0;
        while i < self.samples.len()
            invariant
                i <= self.samples@.len(),
                out@.len() == i,
                forall|j: int| 0 <= j < i ==> out@[j] == self@.samples[j].rung_kbps,
            decreases self.samples@.len() - i,
        {
            out.push(self.samples[i].rung_kbps);
            i = i + 1;
        }
        assert(out@ =~= self@.samples.map_values(|seen: ObservedView| seen.rung_kbps));
        out
    }
}

/// How a run came to a rung.
#[derive(Clone, Copy, Debug, PartialEq, Eq, Structural)]
pub enum Reached {
    Playing,
    Upshift,
    Downshift,
}

/// Why a run stopped. It invents nothing: what was not measured, or does not agree with itself, is
/// not simulated.
#[derive(Clone, Copy, Debug, PartialEq, Eq, Structural)]
pub enum Failure {
    /// A rung has no operating point.
    Uncalibrated { kbps: u32, reached: Reached },
    /// A transaction leg has no cost.
    Unmeasured { direction: Direction, commit: bool },
    /// An upward proposal has nothing that it may spend.
    NoReserve { kbps: u32, reserve_ms: i64 },
    /// An upward proposal no longer stands when it is given its budget.
    LostFrontier { kbps: u32 },
    /// The commit leg rejects and the reject leg commits.
    Contradictory { kbps: u32 },
    /// The policy refused a candidate that qualified.
    CommitRefused { kbps: u32 },
}

pub open spec fn reached_text(reached: Reached) -> Seq<char> {
    match reached {
        Reached::Playing => "the rung being played"@,
        Reached::Upshift => "an UPSHIFT proposal"@,
        Reached::Downshift => "a DOWNSHIFT proposal"@,
    }
}

pub open spec fn direction_text(direction: Direction) -> Seq<char> {
    match direction {
        Direction::Up => "Up"@,
        Direction::Down => "Down"@,
    }
}

impl Failure {
    /// The message of a stopped run.
    pub open spec fn text(self) -> Seq<char> {
        match self {
            Failure::Uncalibrated { kbps, reached } => "rung "@ + decimal(kbps as int)
                + "kbps is UNCALIBRATED — measure it before simulating it (reached via "@
                + reached_text(reached) + ")"@,
            Failure::Unmeasured { direction, commit } => "transaction leg "@ + direction_text(
                direction,
            ) + (if commit {
                "/commit"@
            } else {
                "/reject"@
            }) + " is UNMEASURED — increment I2 exists to measure it"@,
            Failure::NoReserve { kbps, reserve_ms } => "upward proposal "@ + decimal(kbps as int)
                + "kbps has no executable exploration reserve at "@ + decimal(reserve_ms as int)
                + "ms"@,
            Failure::LostFrontier { kbps } => "upward proposal "@ + decimal(kbps as int)
                + "kbps lost its executable exploration frontier"@,
            Failure::Contradictory { kbps } => "transaction model is self-contradictory at "@
                + decimal(kbps as int) + "kbps: commit leg rejects but reject leg commits"@,
            Failure::CommitRefused { kbps } =>
                "controller refused candidate after the plant had authorized its commit at "@
                + decimal(kbps as int) + "kbps"@,
        }
    }

    /// The message of a stopped run.
    pub fn message(&self) -> (r: String)
        ensures
            r@ == self.text(),
    {
        match *self {
            Failure::Uncalibrated { kbps, reached } => {
                let mut out = String::from_str("rung ");
                push_decimal_i64(&mut out, kbps as i64);
                out.append("kbps is UNCALIBRATED — measure it before simulating it (reached via ");
                out.append(
                    match reached {
                        Reached::Playing => "the rung being played",
                        Reached::Upshift => "an UPSHIFT proposal",
                        Reached::Downshift => "a DOWNSHIFT proposal",
                    },
                );
                out.append(")");
                out
            },
            Failure::Unmeasured { direction, commit } => {
                let mut out = String::from_str("transaction leg ");
                out.append(
                    match direction {
                        Direction::Up => "Up",
                        Direction::Down => "Down",
                    },
                );
                out.append(
                    if commit {
                        "/commit"
                    } else {
                        "/reject"
                    },
                );
                out.append(" is UNMEASURED — increment I2 exists to measure it");
                out
            },
            Failure::NoReserve { kbps, reserve_ms } => {
                let mut out = String::from_str("upward proposal ");
                push_decimal_i64(&mut out, kbps as i64);
                out.append("kbps has no executable exploration reserve at ");
                push_decimal_i64(&mut out, reserve_ms);
                out.append("ms");
                out
            },
            Failure::LostFrontier { kbps } => {
                let mut out = String::from_str("upward proposal ");
                push_decimal_i64(&mut out, kbps as i64);
                out.append("kbps lost its executable exploration frontier");
                out
            },
            Failure::Contradictory { kbps } => {
                let mut out = String::from_str("transaction model is self-contradictory at ");
                push_decimal_i64(&mut out, kbps as i64);
                out.append("kbps: commit leg rejects but reject leg commits");
                out
            },
            Failure::CommitRefused { kbps } => {
                let mut out = String::from_str(
                    "controller refused candidate after the plant had authorized its commit at ",
                );
                push_decimal_i64(&mut out, kbps as i64);
                out.append("kbps");
                out
            },
        }
    }
}

/// Where a run stands between two segments, or why it stopped there.
pub enum Round<S> {
    Continues { state: S, now: int, buf: int, report: ReportView },
    Stops { state: S, failure: Failure },
}

/// What the policy is given to spend on a proposal: a budget on the way up, nothing to keep to on
/// the way down.
pub enum Arming<S> {
    Armed { state: S, budget_ms: Option<i64> },
    Stops { state: S, failure: Failure },
}

/// An instant as the policy hears it.
pub open spec fn instant(now: int) -> u64 {
    larger(now, 0) as u64
}

/// What the policy reads off a sample as the transfer rate.
pub open spec fn rate_told(sample: SegmentSample) -> u64 {
    clamp_u64(sample.wire_rate_kbps()) as u64
}

/// How a proposal came to its rung.
pub open spec fn reached_by(direction: Direction) -> Reached {
    match direction {
        Direction::Up => Reached::Upshift,
        Direction::Down => Reached::Downshift,
    }
}

/// What the policy lets a proposal spend from a reserve of `buf`.
pub open spec fn arming_of<C: Controller>(s: C::State, proposal: Proposal, buf: int) -> Arming<
    C::State,
> {
    let kbps = proposal.rung.kbps;
    if proposal.direction == Direction::Down {
        Arming::Armed { state: s, budget_ms: None }
    } else {
        match C::budget(s, buf as i64) {
            None => Arming::Stops {
                state: s,
                failure: Failure::NoReserve { kbps, reserve_ms: buf as i64 },
            },
            Some(budget) => {
                let (armed, stands) = C::after_arming(s, proposal, budget);
                if stands {
                    Arming::Armed { state: armed, budget_ms: Some(budget) }
                } else {
                    Arming::Stops { state: armed, failure: Failure::LostFrontier { kbps } }
                }
            },
        }
    }
}

/// The attempt that a proposal comes to. The costs of a leg are known by its outcome, so the
/// commit leg is tried first, and where it does not commit the reject leg has to reject.
#[verifier::opaque]
pub open spec fn settled_attempt<C: Controller>(
    s: C::State,
    proposal: Proposal,
    tx: TransactionModel,
    setting: Setting,
    active: ObservedHlsVariant,
) -> Result<CandidateAttempt, Failure> {
    let direction = proposal.direction;
    match tx.cost(direction, true) {
        None => Err(Failure::Unmeasured { direction, commit: true }),
        Some(cost) => {
            let attempt = attempt_of::<C>(s, proposal, setting.at(cost), active);
            if attempt.commits {
                Ok(attempt)
            } else {
                match tx.cost(direction, false) {
                    None => Err(Failure::Unmeasured { direction, commit: false }),
                    Some(cost) => {
                        let attempt = attempt_of::<C>(s, proposal, setting.at(cost), active);
                        if attempt.commits {
                            Err(Failure::Contradictory { kbps: proposal.rung.kbps })
                        } else {
                            Ok(attempt)
                        }
                    },
                }
            }
        },
    }
}

/// The reserve once a candidate's objects are published.
pub open spec fn reserve_published(
    plant: Plant,
    point: OperatingPoint,
    buf: int,
    objects: u32,
) -> int {
    smaller(clamp_i64(buf + clamp_i64(plant.segment_ms * objects)), plant.ceiling(point))
}

/// Closes an attempt that began at `now` with the reserve at `buf`: the old reserve drains by the
/// whole attempt, and only a candidate that takes over adds to it.
#[verifier::opaque]
pub open spec fn attempt_closed<C: Controller>(
    plant: Plant,
    s: C::State,
    proposal: Proposal,
    point: OperatingPoint,
    attempt: CandidateAttempt,
    now: int,
    buf: int,
    report: ReportView,
) -> Round<C::State> {
    let closed = now + attempt.spent_ms;
    let left = larger(buf - attempt.spent_ms, 0);
    let tried = report.with_attempt(attempt, larger(attempt.spent_ms - buf, 0));
    let kbps = proposal.rung.kbps;
    if attempt.expired {
        Round::Continues {
            state: C::after_reject(s, proposal, RejectCause::Censored, instant(closed)),
            now: closed,
            buf: left,
            report: tried.with_reject(),
        }
    } else if attempt.commits {
        let (state, accepted) = C::after_commit(
            s,
            proposal,
            attempt.final_sample->0,
            point.response(),
            instant(closed),
        );
        if accepted {
            Round::Continues {
                state,
                now: closed,
                buf: reserve_published(plant, point, left, attempt.staged_objects),
                report: tried.with_commit(closed, kbps, attempt.staged_objects),
            }
        } else {
            Round::Stops { state, failure: Failure::CommitRefused { kbps } }
        }
    } else {
        Round::Continues {
            state: C::after_reject(s, proposal, RejectCause::Candidate, instant(closed)),
            now: closed,
            buf: left,
            report: tried.with_reject(),
        }
    }
}

/// Tries `proposal` at `now` with the reserve at `buf`, `active` being what is decoded.
#[verifier::opaque]
pub open spec fn transaction<C: Controller>(
    plant: Plant,
    legs: Seq<(i64, u32)>,
    tx: TransactionModel,
    s: C::State,
    proposal: Proposal,
    active: ObservedHlsVariant,
    now: int,
    buf: int,
    report: ReportView,
) -> Round<C::State> {
    match Calibration::measured(proposal.rung.kbps) {
        None => Round::Stops {
            state: s,
            failure: Failure::Uncalibrated {
                kbps: proposal.rung.kbps,
                reached: reached_by(proposal.direction),
            },
        },
        Some(point) => match arming_of::<C>(s, proposal, buf) {
            Arming::Stops { state, failure } => Round::Stops { state, failure },
            Arming::Armed { state, budget_ms } => {
                let setting = Setting {
                    plant,
                    point,
                    capacity_kbps: capacity_at(legs, now),
                    reserve_ms: buf as i64,
                    budget_ms,
                };
                match settled_attempt::<C>(state, proposal, tx, setting, active) {
                    Err(failure) => Round::Stops { state, failure },
                    Ok(attempt) => attempt_closed::<C>(
                        plant,
                        state,
                        proposal,
                        point,
                        attempt,
                        now,
                        buf,
                        report,
                    ),
                }
            },
        },
    }
}

/// One turn of the loop: a segment of the rung being played, and the transaction that the policy
/// asks for, if it does.
#[verifier::opaque]
pub open spec fn round<C: Controller>(
    plant: Plant,
    legs: Seq<(i64, u32)>,
    tx: TransactionModel,
    s: C::State,
    now: int,
    buf: int,
    report: ReportView,
) -> Round<C::State> {
    let kbps = C::playing(s).kbps;
    match Calibration::measured(kbps) {
        None => Round::Stops {
            state: s,
            failure: Failure::Uncalibrated { kbps, reached: Reached::Playing },
        },
        Some(point) => {
            let seen = segment_seen(plant, legs, point, now, buf, kbps);
            let told = segment_told(plant, legs, point, now, buf);
            let noted = C::after_variant(s, point.response(), rate_told(told));
            let (state, decision) = C::after_segment(noted, told, instant(seen.at_ms));
            let heard = report.with_segment(seen, decision);
            match decision {
                Decision::Hold => Round::Continues {
                    state,
                    now: seen.at_ms,
                    buf: seen.buf_ms,
                    report: heard,
                },
                Decision::Prime(proposal) => transaction::<C>(
                    plant,
                    legs,
                    tx,
                    state,
                    proposal,
                    point.response(),
                    seen.at_ms,
                    seen.buf_ms,
                    heard.with_prime(),
                ),
            }
        },
    }
}

/// How a run ended.
pub enum Outcome<S> {
    Completed { state: S, now: int, buf: int, report: ReportView },
    Failed { state: S, failure: Failure },
}

/// The rest of a run that stands at `now` with the reserve at `buf`. Every turn moves the clock.
pub open spec fn run_from<C: Controller>(
    plant: Plant,
    legs: Seq<(i64, u32)>,
    tx: TransactionModel,
    s: C::State,
    now: int,
    buf: int,
    report: ReportView,
) -> Outcome<C::State>
    decreases larger(horizon_of(legs) - now, 0),
{
    if now >= horizon_of(legs) {
        Outcome::Completed { state: s, now, buf, report }
    } else {
        match round::<C>(plant, legs, tx, s, now, buf, report) {
            Round::Stops { state, failure } => Outcome::Failed { state, failure },
            Round::Continues { state, now: later, buf, report } => if later > now {
                run_from::<C>(plant, legs, tx, state, later, buf, report)
            } else {
                Outcome::Completed { state, now: later, buf, report }
            },
        }
    }
}

/// A whole run: it begins at zero, with nothing in reserve.
pub open spec fn run_of<C: Controller>(
    plant: Plant,
    legs: Seq<(i64, u32)>,
    tx: TransactionModel,
    s: C::State,
) -> Outcome<C::State> {
    run_from::<C>(plant, legs, tx, s, 0, 0, ReportView::blank())
}

/// Asks the policy what a proposal may spend.
fn arm<C: Controller>(controller: &mut C, proposal: Proposal, buf_ms: i64) -> (r: Result<
    Option<i64>,
    Failure,
>)
    ensures
        match arming_of::<C>(old(controller).state(), proposal, buf_ms as int) {
            Arming::Armed { state, budget_ms } => r == Ok::<_, Failure>(budget_ms)
                && final(controller).state() == state,
            Arming::Stops { state, failure } => r == Err::<Option<i64>, _>(failure)
                && final(controller).state() == state,
        },
{
    let kbps: u32 = proposal.rung.kbps;
    match proposal.direction {
        Direction::Down => Ok(None),
        Direction::Up => match controller.exploration_budget_ms(buf_ms) {
            None => Err(Failure::NoReserve { kbps, reserve_ms: buf_ms }),
            Some(budget) => {
                if controller.set_executed_exploration_budget(proposal, budget) {
                    Ok(Some(budget))
                } else {
                    Err(Failure::LostFrontier { kbps })
                }
            },
        },
    }
}

/// Tries a proposal at the commit leg's cost and, where that does not commit, at the reject leg's.
fn settle<C: Controller>(
    controller: &C,
    proposal: Proposal,
    tx: &TransactionModel,
    setting: &Setting,
    active: ObservedHlsVariant,
) -> (r: Result<CandidateAttempt, Failure>)
    requires
        setting.point.is_physical(),
    ensures
        r == settled_attempt::<C>(controller.state(), proposal, *tx, *setting, active),
{
    reveal(settled_attempt);
    let direction = proposal.direction;
    let commit_cost = match tx.leg(direction, true) {
        None => return Err(Failure::Unmeasured { direction, commit: true }),
        Some(cost) => cost,
    };
    let commit_attempt = candidate_attempt(
        controller,
        proposal,
        &setting.plant,
        setting.point,
        active,
        setting.capacity_kbps,
        setting.reserve_ms,
        commit_cost,
        setting.budget_ms,
    );
    if commit_attempt.commits {
        return Ok(commit_attempt);
    }
    let reject_cost = match tx.leg(direction, false) {
        None => return Err(Failure::Unmeasured { direction, commit: false }),
        Some(cost) => cost,
    };
    let reject_attempt = candidate_attempt(
        controller,
        proposal,
        &setting.plant,
        setting.point,
        active,
        setting.capacity_kbps,
        setting.reserve_ms,
        reject_cost,
        setting.budget_ms,
    );
    if reject_attempt.commits {
        Err(Failure::Contradictory { kbps: proposal.rung.kbps })
    } else {
        Ok(reject_attempt)
    }
}

/// Whether a turn's outcome, and what it left the policy, the clock, the reserve and the report at,
/// are those of `round`.
pub open spec fn stands<C: Controller>(
    r: Result<(), Failure>,
    round: Round<C::State>,
    state: C::State,
    now: int,
    buf: int,
    report: ReportView,
) -> bool {
    match round {
        Round::Continues { state: s, now: n, buf: b, report: rep } => r is Ok && s == state && n
            == now && b == buf && rep == report,
        Round::Stops { state: s, failure } => r == Err::<(), _>(failure) && s == state,
    }
}

/// Closes an attempt: moves the clock, drains the reserve and tells the policy.
fn close<C: Controller>(
    plant: &Plant,
    controller: &mut C,
    proposal: Proposal,
    point: &OperatingPoint,
    attempt: CandidateAttempt,
    now_ms: &mut i64,
    buf_ms: &mut i64,
    report: &mut Report,
) -> (r: Result<(), Failure>)
    requires
        point.is_physical(),
        *old(now_ms) >= 0,
        i64::MIN <= *old(buf_ms) - attempt.spent_ms,
        attempt.spent_ms - *old(buf_ms) <= i64::MAX,
        0 <= old(report).stall_ms_total,
        old(report).stall_ms_total + larger(attempt.spent_ms - *old(buf_ms), 0) <= i64::MAX,
        attempt.control_ms >= 0,
        attempt.media_ms >= 0,
        attempt.spent_ms == attempt.control_ms + attempt.media_ms,
        attempt.commits ==> attempt.final_sample is Some,
        *old(now_ms) + attempt.spent_ms <= i64::MAX,
        0 <= old(report).tx_control_plane_ms,
        0 <= old(report).tx_media_ms,
        old(report).tx_control_plane_ms + old(report).tx_media_ms <= *old(now_ms),
        old(report).rejects < u32::MAX,
    ensures
        stands::<C>(
            r,
            attempt_closed::<C>(
                *plant,
                old(controller).state(),
                proposal,
                *point,
                attempt,
                *old(now_ms) as int,
                *old(buf_ms) as int,
                old(report)@,
            ),
            final(controller).state(),
            *final(now_ms) as int,
            *final(buf_ms) as int,
            final(report)@,
        ),
{
    reveal(attempt_closed);
    let ghost before = report@;
    let spent: i64 = attempt.spent_ms;
    let tx_stall: i64 = (spent - *buf_ms).max(0);
    *buf_ms = (*buf_ms - spent).max(0);
    *now_ms = *now_ms + spent;
    report.stall_ms_total = report.stall_ms_total + tx_stall;
    report.stall_ms_max = report.stall_ms_max.max(tx_stall);
    report.tx_control_plane_ms = report.tx_control_plane_ms + attempt.control_ms;
    report.tx_media_ms = report.tx_media_ms + attempt.media_ms;
    assert(report@.samples =~= before.samples);
    assert(report@.commits =~= before.commits);
    let ghost tried = report@;

    let closed_at: u64 = *now_ms as u64;
    if attempt.expired {
        controller.reject(proposal, RejectCause::Censored, closed_at);
        report.rejects = report.rejects + 1;
        assert(report@.samples =~= before.samples);
        assert(report@.commits =~= before.commits);
    } else if attempt.commits {
        let sample = attempt.final_sample.unwrap();
        if !controller.commit_candidate(proposal, sample, point.variant(), closed_at) {
            return Err(Failure::CommitRefused { kbps: proposal.rung.kbps });
        }
        let published: i64 = plus_i64(
            *buf_ms,
            times_i64(plant.segment_ms, attempt.staged_objects),
        );
        *buf_ms = published.min(plant.b_max_ms(point));
        report.committed_candidate_objects =
        report.committed_candidate_objects.saturating_add(attempt.staged_objects);
        report.commits.push((*now_ms, proposal.rung.kbps));
        assert(report@.samples =~= before.samples);
        assert(report@.commits =~= before.commits.push((*now_ms as int, proposal.rung.kbps)));
    } else {
        controller.reject(proposal, RejectCause::Candidate, closed_at);
        report.rejects = report.rejects + 1;
        assert(report@.samples =~= before.samples);
        assert(report@.commits =~= before.commits);
    }
    Ok(())
}

/// Tries a proposal: arms it, settles what it costs, and closes it.
fn transact<C: Controller>(
    plant: &Plant,
    trace: &Trace,
    controller: &mut C,
    tx: &TransactionModel,
    proposal: Proposal,
    active: ObservedHlsVariant,
    now_ms: &mut i64,
    buf_ms: &mut i64,
    report: &mut Report,
) -> (r: Result<(), Failure>)
    requires
        *old(now_ms) >= 0,
        *old(now_ms) + longest_attempt(*plant, *tx) <= i64::MAX,
        i64::MIN <= *old(buf_ms) - longest_attempt(*plant, *tx),
        longest_attempt(*plant, *tx) - *old(buf_ms) <= i64::MAX,
        0 <= old(report).stall_ms_total,
        old(report).stall_ms_total + larger(longest_attempt(*plant, *tx) - *old(buf_ms), 0)
            <= i64::MAX,
        0 <= old(report).tx_control_plane_ms,
        0 <= old(report).tx_media_ms,
        old(report).tx_control_plane_ms + old(report).tx_media_ms <= *old(now_ms),
        old(report).rejects < u32::MAX,
    ensures
        stands::<C>(
            r,
            transaction::<C>(
                *plant,
                trace@,
                *tx,
                old(controller).state(),
                proposal,
                active,
                *old(now_ms) as int,
                *old(buf_ms) as int,
                old(report)@,
            ),
            final(controller).state(),
            *final(now_ms) as int,
            *final(buf_ms) as int,
            final(report)@,
        ),
{
    reveal(transaction);
    let kbps: u32 = proposal.rung.kbps;
    let point = match Calibration::point(kbps) {
        None => return Err(
            Failure::Uncalibrated {
                kbps,
                reached: match proposal.direction {
                    Direction::Up => Reached::Upshift,
                    Direction::Down => Reached::Downshift,
                },
            },
        ),
        Some(point) => point,
    };
    proof {
        lemma_measured_point(*plant, kbps);
    }
    let capacity_kbps: u32 = trace.capacity_kbps(*now_ms);
    let budget_ms = match arm(controller, proposal, *buf_ms) {
        Err(failure) => return Err(failure),
        Ok(budget_ms) => budget_ms,
    };
    let setting = Setting { plant: *plant, point, capacity_kbps, reserve_ms: *buf_ms, budget_ms };
    let attempt = match settle(controller, proposal, tx, &setting, active) {
        Err(failure) => return Err(failure),
        Ok(attempt) => attempt,
    };
    proof {
        let terms = lemma_settled_attempt::<C>(
            controller.state(),
            proposal,
            *tx,
            setting,
            active,
        );
    }
    close(plant, controller, proposal, &point, attempt, now_ms, buf_ms, report)
}

/// Records a segment and the policy's answer to it.
fn record(report: &mut Report, observed: Observed, decision: Decision)
    requires
        old(report).stall_ms_total + observed.stall_ms <= i64::MAX,
        0 <= old(report).stall_ms_total,
        0 <= observed.stall_ms,
    ensures
        final(report)@ == old(report)@.with_segment(observed@, decision),
{
    let ghost before = report@;
    report.stall_ms_total = report.stall_ms_total + observed.stall_ms;
    report.stall_ms_max = report.stall_ms_max.max(observed.stall_ms);
    report.samples.push(observed);
    if report.first_decision.is_none() {
        report.first_decision = Some(decision);
        report.first_buf_ms = observed.buf_ms;
    }
    assert(report@.samples =~= before.samples.push(observed@));
    assert(report@.commits =~= before.commits);
}

/// One turn of the loop.
fn turn<C: Controller>(
    plant: &Plant,
    trace: &Trace,
    controller: &mut C,
    tx: &TransactionModel,
    now_ms: &mut i64,
    buf_ms: &mut i64,
    report: &mut Report,
) -> (r: Result<(), Failure>)
    requires
        run_fits(*plant, trace@, *tx),
        *old(now_ms) < horizon_of(trace@),
        run_sound(*plant, trace@, old(report)@, *old(now_ms) as int, *old(buf_ms) as int),
    ensures
        stands::<C>(
            r,
            round::<C>(
                *plant,
                trace@,
                *tx,
                old(controller).state(),
                *old(now_ms) as int,
                *old(buf_ms) as int,
                old(report)@,
            ),
            final(controller).state(),
            *final(now_ms) as int,
            *final(buf_ms) as int,
            final(report)@,
        ),
{
    reveal(round);
    let ghost before = report@;
    let ghost now0 = *now_ms as int;
    let ghost buf0 = *buf_ms as int;
    let kbps: u32 = controller.current().kbps;
    let point = match Calibration::point(kbps) {
        None => return Err(Failure::Uncalibrated { kbps, reached: Reached::Playing }),
        Some(point) => point,
    };
    proof {
        lemma_measured_point(*plant, kbps);
        lemma_step_bounded(*plant, trace@, kbps, now0, buf0);
        lemma_attempt_not_negative(*plant, *tx);
        lemma_debts_fit(
            before.samples.len() as int + 1,
            before.primes + 1,
            horizon_of(trace@) as int,
            deepest_debt(*plant),
        );
    }
    let (observed, sample) = step(plant, trace, &point, now_ms, buf_ms, kbps);

    let active = point.variant();
    controller.observe_active_variant(active, sample.network_kbps());
    let decision = controller.observe(sample, *now_ms as u64);
    proof {
        lemma_segment_keeps_a_run_sound(*plant, trace@, kbps, decision, now0, buf0, before);
        lemma_debts_fit(
            before.samples.len() as int + 1,
            before.primes,
            horizon_of(trace@) as int,
            deepest_debt(*plant),
        );
        lemma_one_more(before.samples.len() as int + 1 + before.primes, deepest_debt(*plant));
    }
    record(report, observed, decision);
    let ghost heard = report@;
    match decision {
        Decision::Hold => Ok(()),
        Decision::Prime(proposal) => {
            report.primes = report.primes + 1;
            proof {
                assert(report@.samples =~= heard.samples);
                assert(report@.commits =~= heard.commits);
                assert(report@ == heard.with_prime());
            }
            transact(plant, trace, controller, tx, proposal, active, now_ms, buf_ms, report)
        },
    }
}

fn leg_cost(cost: Option<TransactionCost>) -> (r: i128)
    ensures
        r == leg_ms(cost),
        0 <= r <= 3 * i64::MAX,
{
    match cost {
        None => 0,
        Some(cost) => cost.control_plane_ms.max(0) as i128 + cost.warmup_acq_ms.max(0) as i128
            + cost.graded_acq_ms.max(0) as i128,
    }
}

/// Whether a run on this plant, with this schedule and these costs, has segments to measure and
/// stays in the machine's range, whatever the policy decides.
pub fn can_run(plant: &Plant, trace: &Trace, tx: &TransactionModel) -> (r: bool)
    ensures
        r == run_fits(*plant, trace@, *tx),
{
    let horizon: i64 = trace.horizon_ms();
    if horizon <= 0 {
        return true;
    }
    if plant.segment_ms == 0 || horizon > u32::MAX as i64 {
        return false;
    }
    let floor = Calibration::point(320).unwrap();
    let top = Calibration::point(20_000).unwrap();
    let fattest: u64 = times_u64(20_706, plant.segment_ms.max(1) as u64);
    let acquisition: i128 = ms_for_bits(fattest, 1) as i128 + 323;
    let highest: i128 = plant.b_max_ms(&floor).max(0) as i128;
    let two_segments: i128 = 2 * plant.segment_ms as i128;
    let debt: i128 = -(plant.b_max_ms(&top) as i128).min(two_segments).min(0);
    let refilled: i128 = highest + plant.segment_ms as i128 + debt;
    let step_ms: i128 = if acquisition < refilled {
        refilled
    } else {
        acquisition
    };
    let up: i128 = leg_cost(tx.up_commit).max(leg_cost(tx.up_reject));
    let down: i128 = leg_cost(tx.down_commit).max(leg_cost(tx.down_reject));
    let attempt: i128 = 2 * acquisition + up.max(down);
    proof {
        assert(0 <= horizon * debt <= 0xffff_ffff * 0x1_0000_0000_0000_0000) by (nonlinear_arith)
            requires
                0 <= horizon <= 0xffff_ffff,
                0 <= debt <= 0x1_0000_0000_0000_0000,
        ;
    }
    let owed: i128 = 2 * (horizon as i128 * debt);
    horizon as i128 + step_ms + attempt + owed <= i64::MAX as i128
}

/// Runs `controller` against `trace` on `plant`, until the schedule ends.
///
/// It fabricates nothing: an uncalibrated rung or an unmeasured transaction leg stops the run, and
/// the error says which.
pub fn run<C: Controller>(
    plant: &Plant,
    trace: &Trace,
    controller: &mut C,
    tx: &TransactionModel,
) -> (r: Result<Report, String>)
    requires
        run_fits(*plant, trace@, *tx),
    ensures
        match run_of::<C>(*plant, trace@, *tx, old(controller).state()) {
            Outcome::Completed { state, report, .. } => final(controller).state() == state
                && r is Ok && (r->Ok_0)@ == report,
            Outcome::Failed { state, failure } => final(controller).state() == state && r is Err
                && (r->Err_0)@ == failure.text(),
        },
{
    let mut report = Report::default();
    let mut now_ms: i64 = 0;
    let mut buf_ms: i64 = 0;
    let horizon: i64 = trace.horizon_ms();
    let ghost start = controller.state();
    proof {
        lemma_run_begins_sound(*plant, trace@);
    }
    while now_ms < horizon
        invariant
            run_fits(*plant, trace@, *tx),
            horizon == horizon_of(trace@),
            start == old(controller).state(),
            run_sound(*plant, trace@, report@, now_ms as int, buf_ms as int),
            run_of::<C>(*plant, trace@, *tx, start) == run_from::<C>(
                *plant,
                trace@,
                *tx,
                controller.state(),
                now_ms as int,
                buf_ms as int,
                report@,
            ),
        decreases larger(horizon - now_ms, 0),
    {
        proof {
            law_round_keeps_a_run_sound::<C>(
                *plant,
                trace@,
                *tx,
                controller.state(),
                now_ms as int,
                buf_ms as int,
                report@,
            );
        }
        match turn(plant, trace, controller, tx, &mut now_ms, &mut buf_ms, &mut report) {
            Err(failure) => return Err(failure.message()),
            Ok(()) => {},
        }
    }
    Ok(report)
}

} // verus!
