//! What holds of the plant and of every run, whatever the policy decides.
use vstd::arithmetic::div_mod::lemma_div_is_ordered_by_denominator;
use vstd::prelude::*;

use crate::abr::calibration::{Calibration, CALIBRATED};
use crate::abr::plant::{
    capacity_at, horizon_of, leg_at, OperatingPoint, Plant, TransactionCost, TransactionModel,
    AUDIO_LEAD_MS, AUDIO_QUEUE_BYTES, CENSUS_VIDEO_QUEUE_BYTES, VIDEO_LEAD_MS,
};
use crate::abr::sim::{
    acquisition_ms, arming_of, attempt_closed, attempt_of, instant, rate_told, reserve_published,
    round, run_from, run_of, segment_bits, segment_seen, segment_told, settled_attempt,
    transaction, transfer_ms, Arming, CandidateAttempt, Failure, ObservedView, Outcome, Reached,
    ReportView, Round, Setting, Terms,
};
use crate::abr::{Controller, Decision, ObservedHlsVariant, Proposal};
use crate::arith::{bits_to_ms, clamp_u64, larger, lemma_bits_to_ms, smaller};

verus! {

// ---- bounds on one turn ---------------------------------------------------------------------
/// The rung at the bottom of the measured ladder, where the reserve reaches furthest.
pub open spec fn floor_point() -> OperatingPoint {
    Calibration::measured(320)->0
}

/// The rung at the top of the measured ladder, where the reserve reaches least far.
pub open spec fn top_point() -> OperatingPoint {
    Calibration::measured(20_000)->0
}

/// The reserve of a run never lies above this.
pub open spec fn highest_reserve(plant: Plant) -> int {
    larger(plant.ceiling(floor_point()), 0)
}

/// The reserve of a run never lies below this. Where lanes are fed ahead and segments hold
/// content, it is nothing at all; otherwise a reserve can be owed.
pub open spec fn deepest_reserve(plant: Plant) -> int {
    smaller(smaller(plant.ceiling(top_point()), 2 * plant.segment_ms), 0)
}

/// What a run can owe at most.
pub open spec fn deepest_debt(plant: Plant) -> int {
    -deepest_reserve(plant)
}

/// No measured segment takes longer to acquire: the fattest rung over the thinnest link.
pub open spec fn longest_acquisition(plant: Plant) -> int {
    transfer_ms(20_706, larger(plant.segment_ms as int, 1), 1) + 323
}

/// No measured segment takes longer on the wall.
pub open spec fn longest_step(plant: Plant) -> int {
    larger(
        longest_acquisition(plant),
        highest_reserve(plant) + plant.segment_ms + deepest_debt(plant),
    )
}

/// The wall time of a leg's own cost.
pub open spec fn leg_ms(cost: Option<TransactionCost>) -> int {
    match cost {
        None => 0,
        Some(cost) => larger(cost.control_plane_ms as int, 0) + larger(
            cost.warmup_acq_ms as int,
            0,
        ) + larger(cost.graded_acq_ms as int, 0),
    }
}

/// No attempt takes longer.
pub open spec fn longest_attempt(plant: Plant, tx: TransactionModel) -> int {
    2 * longest_acquisition(plant) + larger(
        larger(leg_ms(tx.up_commit), leg_ms(tx.up_reject)),
        larger(leg_ms(tx.down_commit), leg_ms(tx.down_reject)),
    )
}

/// Whether segments hold something to measure, the clock and the stalls of a run stay in an `i64`
/// and its counters in a `u32`, whatever the policy decides. A schedule that has ended before it
/// begins asks for nothing.
pub open spec fn run_fits(plant: Plant, legs: Seq<(i64, u32)>, tx: TransactionModel) -> bool {
    let horizon = horizon_of(legs);
    horizon > 0 ==> {
        &&& plant.segment_ms != 0
        &&& horizon <= u32::MAX
        &&& horizon + longest_step(plant) + longest_attempt(plant, tx) + 2 * (horizon
            * deepest_debt(plant)) <= i64::MAX
    }
}

proof fn lemma_bits_to_ms_ordered(bits: int, fast: int, slow: int)
    requires
        bits >= 0,
        slow <= fast,
    ensures
        0 <= bits_to_ms(bits, fast) <= bits_to_ms(bits, slow),
{
    lemma_div_is_ordered_by_denominator(bits, larger(slow, 1), larger(fast, 1));
    assert(bits / larger(fast, 1) >= 0) by (nonlinear_arith)
        requires
            bits >= 0,
            larger(fast, 1) >= 1,
    ;
}

/// The reserve that playback can reach falls as either elementary rate rises.
pub proof fn law_ceiling_falls_with_the_rates(
    plant: Plant,
    low: OperatingPoint,
    high: OperatingPoint,
)
    requires
        low.video_es_kbps <= high.video_es_kbps,
        low.audio_es_kbps <= high.audio_es_kbps,
    ensures
        plant.ceiling(high) <= plant.ceiling(low),
{
    lemma_bits_to_ms_ordered(
        clamp_u64(plant.video_queue_bytes * 8),
        high.video_es_kbps as int,
        low.video_es_kbps as int,
    );
    lemma_bits_to_ms_ordered(
        clamp_u64(plant.audio_queue_bytes * 8),
        high.audio_es_kbps as int,
        low.audio_es_kbps as int,
    );
}

/// A plant whose lanes are fed ahead and whose segments hold content owes nothing, ever.
pub proof fn law_physical_plant_owes_nothing(plant: Plant)
    requires
        plant.is_physical(),
    ensures
        deepest_reserve(plant) == 0,
        highest_reserve(plant) == plant.ceiling(floor_point()),
{
    let floor = floor_point();
    let top = top_point();
    let video_bits = clamp_u64(plant.video_queue_bytes * 8);
    let audio_bits = clamp_u64(plant.audio_queue_bytes * 8);
    lemma_bits_to_ms_ordered(video_bits, floor.video_es_kbps as int, floor.video_es_kbps as int);
    lemma_bits_to_ms_ordered(audio_bits, floor.audio_es_kbps as int, floor.audio_es_kbps as int);
    lemma_bits_to_ms_ordered(video_bits, top.video_es_kbps as int, top.video_es_kbps as int);
    lemma_bits_to_ms_ordered(audio_bits, top.audio_es_kbps as int, top.audio_es_kbps as int);
}

/// A measured point: physical, within the table's extremes, and its ceiling between those of the
/// ladder's two ends.
pub proof fn lemma_measured_point(plant: Plant, kbps: u32)
    requires
        Calibration::measured(kbps) is Some,
    ensures
        ({
            let point = Calibration::measured(kbps)->0;
            &&& point.is_physical()
            &&& point.ts_kbps <= 20_706
            &&& 0 <= point.overhead_ms <= 323
            &&& deepest_reserve(plant) <= plant.ceiling(point) <= highest_reserve(plant)
        }),
{
    let point = Calibration::measured(kbps)->0;
    law_ceiling_falls_with_the_rates(plant, floor_point(), point);
    law_ceiling_falls_with_the_rates(plant, point, top_point());
}

proof fn lemma_acquisition_bounded(
    plant: Plant,
    point: OperatingPoint,
    segment_ms: int,
    capacity_kbps: u32,
)
    requires
        point.ts_kbps <= 20_706,
        0 <= point.overhead_ms <= 323,
        segment_ms <= larger(plant.segment_ms as int, 1),
    ensures
        0 <= transfer_ms(point.ts_kbps, segment_ms, capacity_kbps),
        1 <= acquisition_ms(point, segment_ms, capacity_kbps) <= longest_acquisition(plant),
{
    let held = larger(segment_ms, 0);
    let longest = larger(plant.segment_ms as int, 1);
    let bits = segment_bits(point.ts_kbps, segment_ms);
    let most = segment_bits(20_706, longest);
    assert(0 <= point.ts_kbps * held <= 20_706 * longest) by (nonlinear_arith)
        requires
            0 <= point.ts_kbps <= 20_706,
            0 <= held <= longest,
    ;
    lemma_bits_to_ms_ordered(bits, larger(capacity_kbps as int, 1), 1);
    assert(bits / 1 <= most / 1);
}

pub proof fn lemma_step_bounded(plant: Plant, legs: Seq<(i64, u32)>, kbps: u32, now: int, buf: int)
    requires
        Calibration::measured(kbps) is Some,
        deepest_reserve(plant) <= buf <= highest_reserve(plant),
    ensures
        ({
            let point = Calibration::measured(kbps)->0;
            let seen = segment_seen(plant, legs, point, now, buf, kbps);
            &&& sample_sound(plant, legs, seen)
            &&& 1 <= seen.wall_ms <= longest_step(plant)
            &&& seen.at_ms == now + seen.wall_ms
            &&& deepest_reserve(plant) <= seen.buf_ms <= highest_reserve(plant)
        }),
{
    let point = Calibration::measured(kbps)->0;
    lemma_measured_point(plant, kbps);
    lemma_acquisition_bounded(
        plant,
        point,
        plant.segment_ms as int,
        capacity_at(legs, now),
    );
}

// ---- what every attempt is ------------------------------------------------------------------
/// What holds of an attempt on given terms: its time is the control plane's and the media's, it
/// keeps to its budget, and only one that fetched an object and ended in time commits.
pub open spec fn attempt_sound(terms: Terms, attempt: CandidateAttempt) -> bool {
    &&& attempt.control_ms >= 0
    &&& attempt.media_ms >= 0
    &&& attempt.spent_ms == attempt.control_ms + attempt.media_ms
    &&& attempt.spent_ms <= terms.deadline_ms()
    &&& attempt.staged_objects <= 2
    &&& attempt.final_sample is Some <==> attempt.staged_objects >= 1
    &&& attempt.commits ==> attempt.staged_objects >= 1 && !attempt.expired
}

/// Every attempt is sound, whatever the policy says of its objects.
pub proof fn law_attempt_is_sound<C: Controller>(
    s: C::State,
    proposal: Proposal,
    terms: Terms,
    active: ObservedHlsVariant,
)
    ensures
        attempt_sound(terms, attempt_of::<C>(s, proposal, terms, active)),
{
}

/// The bounds on one turn are no less than nothing.
pub proof fn lemma_attempt_not_negative(plant: Plant, tx: TransactionModel)
    ensures
        longest_attempt(plant, tx) >= 0,
        longest_step(plant) >= 0,
{
    lemma_acquisition_bounded(plant, top_point(), larger(plant.segment_ms as int, 1), 1);
}

proof fn lemma_attempt_bounded<C: Controller>(
    plant: Plant,
    s: C::State,
    proposal: Proposal,
    terms: Terms,
    active: ObservedHlsVariant,
)
    requires
        terms.plant == plant,
        terms.point.ts_kbps <= 20_706,
        0 <= terms.point.overhead_ms <= 323,
    ensures
        attempt_of::<C>(s, proposal, terms, active).spent_ms <= 2 * longest_acquisition(plant)
            + leg_ms(Some(terms.cost)),
{
    lemma_acquisition_bounded(plant, terms.point, terms.segment_ms(), terms.capacity_kbps);
    assert(terms.steady_ms() == acquisition_ms(
        terms.point,
        terms.segment_ms(),
        terms.capacity_kbps,
    ));
}

// ---- what every run is ----------------------------------------------------------------------
/// What holds of every segment of a run: it carries the measured rates of its rung and the
/// capacity at the instant that it was asked for, acquisition lies within its wall time, the stall
/// exceeds that time by no more than was owed, and the reserve stays under its ceiling.
pub open spec fn sample_sound(plant: Plant, legs: Seq<(i64, u32)>, seen: ObservedView) -> bool {
    &&& Calibration::measured(seen.rung_kbps) is Some
    &&& seen.ts_kbps == (Calibration::measured(seen.rung_kbps)->0).ts_kbps
    &&& seen.b_max_ms == plant.ceiling(Calibration::measured(seen.rung_kbps)->0)
    &&& seen.capacity_kbps == capacity_at(legs, seen.at_ms - seen.wall_ms)
    &&& 1 <= seen.acquire_ms <= seen.wall_ms
    &&& 0 <= seen.stall_ms <= seen.wall_ms + deepest_debt(plant)
    &&& deepest_reserve(plant) <= seen.buf_ms <= seen.b_max_ms
}

/// The wall time of all segments.
pub open spec fn playing_ms(samples: Seq<ObservedView>) -> int
    decreases samples.len(),
{
    if samples.len() == 0 {
        0
    } else {
        playing_ms(samples.drop_last()) + samples.last().wall_ms
    }
}

/// What holds of a run that stands at `now` with the reserve at `buf`.
///
/// The clock is accounted for to the millisecond: it moved by the segments' wall time and by the
/// transactions' two parts. Segments land at strictly rising instants. Every proposal was either
/// abandoned or took over, and one that took over published one object or two. A plant that owes
/// nothing, as a physical one does, stalls for no longer than the clock moved.
pub open spec fn run_sound(
    plant: Plant,
    legs: Seq<(i64, u32)>,
    report: ReportView,
    now: int,
    buf: int,
) -> bool {
    &&& deepest_reserve(plant) <= buf <= highest_reserve(plant)
    &&& now == playing_ms(report.samples) + report.tx_control_plane_ms + report.tx_media_ms
    &&& playing_ms(report.samples) >= 0
    &&& report.tx_control_plane_ms >= 0
    &&& report.tx_media_ms >= 0
    &&& 0 <= report.stall_ms_max <= report.stall_ms_total
    &&& report.stall_ms_total <= now + (report.samples.len() + report.primes) * deepest_debt(plant)
    &&& forall|i: int|
        0 <= i < report.samples.len() ==> sample_sound(plant, legs, #[trigger] report.samples[i])
    &&& forall|i: int|
        0 <= i < report.samples.len() ==> 0 < (#[trigger] report.samples[i]).at_ms <= now
    &&& forall|i: int, j: int|
        0 <= i < j < report.samples.len() ==> (#[trigger] report.samples[i]).at_ms < (
        #[trigger] report.samples[j]).at_ms
    &&& forall|i: int|
        0 <= i < report.commits.len() ==> 0 < (#[trigger] report.commits[i]).0 <= now
            && Calibration::measured(report.commits[i].1) is Some
    &&& report.rejects >= 0
    &&& report.primes == report.rejects + report.commits.len()
    &&& report.primes <= report.samples.len() <= now
    &&& smaller(report.commits.len() as int, u32::MAX as int)
        <= report.committed_candidate_objects <= 2 * report.commits.len()
    &&& report.committed_candidate_objects <= u32::MAX
    &&& report.first_decision is Some <==> report.samples.len() > 0
    &&& report.samples.len() > 0 ==> report.first_buf_ms == report.samples[0].buf_ms
}

pub proof fn lemma_segment_keeps_a_run_sound(
    plant: Plant,
    legs: Seq<(i64, u32)>,
    kbps: u32,
    decision: Decision,
    now: int,
    buf: int,
    report: ReportView,
)
    requires
        Calibration::measured(kbps) is Some,
        run_sound(plant, legs, report, now, buf),
    ensures
        ({
            let point = Calibration::measured(kbps)->0;
            let seen = segment_seen(plant, legs, point, now, buf, kbps);
            let heard = report.with_segment(seen, decision);
            &&& run_sound(plant, legs, heard, seen.at_ms, seen.buf_ms)
            &&& heard.primes < heard.samples.len()
        }),
{
    let point = Calibration::measured(kbps)->0;
    let seen = segment_seen(plant, legs, point, now, buf, kbps);
    let heard = report.with_segment(seen, decision);
    lemma_step_bounded(plant, legs, kbps, now, buf);
    assert(heard.samples.drop_last() =~= report.samples);
    lemma_one_more(report.samples.len() + report.primes, deepest_debt(plant));
}

/// What a run of `turns` turns can stall beyond its clock.
pub proof fn lemma_debts_fit(samples: int, primes: int, turns: int, debt: int)
    requires
        primes <= samples <= turns,
        debt >= 0,
        turns >= 1,
    ensures
        (samples + primes) * debt <= 2 * (turns * debt),
        debt <= turns * debt,
{
    assert((samples + primes) * debt <= 2 * (turns * debt)) by (nonlinear_arith)
        requires
            samples + primes <= 2 * turns,
            debt >= 0,
    ;
    assert(debt <= turns * debt) by (nonlinear_arith)
        requires
            turns >= 1,
            debt >= 0,
    ;
}

/// One sample or one proposal more can owe one debt more.
pub proof fn lemma_one_more(n: int, debt: int)
    ensures
        (n + 1) * debt == n * debt + debt,
{
    assert((n + 1) * debt == n * debt + debt) by (nonlinear_arith);
}

proof fn lemma_close_keeps_a_run_sound<C: Controller>(
    plant: Plant,
    legs: Seq<(i64, u32)>,
    s: C::State,
    proposal: Proposal,
    attempt: CandidateAttempt,
    terms: Terms,
    now: int,
    buf: int,
    heard: ReportView,
)
    requires
        Calibration::measured(proposal.rung.kbps) is Some,
        run_sound(plant, legs, heard, now, buf),
        heard.primes < heard.samples.len(),
        attempt_sound(terms, attempt),
    ensures
        attempt_closed::<C>(
            plant,
            s,
            proposal,
            Calibration::measured(proposal.rung.kbps)->0,
            attempt,
            now,
            buf,
            heard.with_prime(),
        ) matches Round::Continues { now: later, buf: left, report: after, .. } ==> {
            &&& run_sound(plant, legs, after, later, left)
            &&& later == now + attempt.spent_ms
        },
{
    reveal(attempt_closed);
    lemma_measured_point(plant, proposal.rung.kbps);
    assert(plant.segment_ms * attempt.staged_objects >= smaller(2 * plant.segment_ms, 0))
        by (nonlinear_arith)
        requires
            0 <= attempt.staged_objects <= 2,
    ;
    lemma_one_more(heard.samples.len() + heard.primes, deepest_debt(plant));
}

pub proof fn lemma_settled_attempt<C: Controller>(
    s: C::State,
    proposal: Proposal,
    tx: TransactionModel,
    setting: Setting,
    active: ObservedHlsVariant,
) -> (terms: Terms)
    requires
        setting.point.ts_kbps <= 20_706,
        0 <= setting.point.overhead_ms <= 323,
    ensures
        settled_attempt::<C>(s, proposal, tx, setting, active) matches Ok(attempt) ==> {
            &&& attempt_sound(terms, attempt)
            &&& attempt.spent_ms <= longest_attempt(setting.plant, tx)
        },
{
    reveal(settled_attempt);
    match tx.cost(proposal.direction, true) {
        None => setting.at(
            TransactionCost { control_plane_ms: 0, warmup_acq_ms: 0, graded_acq_ms: 0 },
        ),
        Some(cost) => {
            let terms = setting.at(cost);
            lemma_attempt_bounded::<C>(setting.plant, s, proposal, terms, active);
            law_attempt_is_sound::<C>(s, proposal, terms, active);
            if attempt_of::<C>(s, proposal, terms, active).commits {
                terms
            } else {
                match tx.cost(proposal.direction, false) {
                    None => terms,
                    Some(cost) => {
                        let terms = setting.at(cost);
                        lemma_attempt_bounded::<C>(setting.plant, s, proposal, terms, active);
                        law_attempt_is_sound::<C>(s, proposal, terms, active);
                        terms
                    },
                }
            }
        },
    }
}

proof fn lemma_transaction_keeps_a_run_sound<C: Controller>(
    plant: Plant,
    legs: Seq<(i64, u32)>,
    tx: TransactionModel,
    s: C::State,
    proposal: Proposal,
    active: ObservedHlsVariant,
    now: int,
    buf: int,
    heard: ReportView,
)
    requires
        run_sound(plant, legs, heard, now, buf),
        heard.primes < heard.samples.len(),
    ensures
        transaction::<C>(
            plant,
            legs,
            tx,
            s,
            proposal,
            active,
            now,
            buf,
            heard.with_prime(),
        ) matches Round::Continues { now: later, buf: left, report: after, .. } ==> {
            &&& run_sound(plant, legs, after, later, left)
            &&& now <= later <= now + longest_attempt(plant, tx)
        },
{
    reveal(transaction);
    if Calibration::measured(proposal.rung.kbps) is Some {
        let point = Calibration::measured(proposal.rung.kbps)->0;
        lemma_measured_point(plant, proposal.rung.kbps);
        if let Arming::Armed { state, budget_ms } = arming_of::<C>(s, proposal, buf) {
            let setting = Setting {
                plant,
                point,
                capacity_kbps: capacity_at(legs, now),
                reserve_ms: buf as i64,
                budget_ms,
            };
            let terms = lemma_settled_attempt::<C>(state, proposal, tx, setting, active);
            if let Ok(attempt) = settled_attempt::<C>(state, proposal, tx, setting, active) {
                lemma_close_keeps_a_run_sound::<C>(
                    plant,
                    legs,
                    state,
                    proposal,
                    attempt,
                    terms,
                    now,
                    buf,
                    heard,
                );
            }
        }
    }
}

/// A run begins sound.
pub proof fn lemma_run_begins_sound(plant: Plant, legs: Seq<(i64, u32)>)
    ensures
        run_sound(plant, legs, ReportView::blank(), 0, 0),
{
}

/// One turn of the loop keeps a run sound and moves its clock, by a bounded amount.
pub proof fn law_round_keeps_a_run_sound<C: Controller>(
    plant: Plant,
    legs: Seq<(i64, u32)>,
    tx: TransactionModel,
    s: C::State,
    now: int,
    buf: int,
    report: ReportView,
)
    requires
        run_sound(plant, legs, report, now, buf),
    ensures
        round::<C>(plant, legs, tx, s, now, buf, report) matches Round::Continues {
            now: later,
            buf: left,
            report: after,
            ..
        } ==> {
            &&& run_sound(plant, legs, after, later, left)
            &&& now < later <= now + longest_step(plant) + longest_attempt(plant, tx)
        },
{
    reveal(round);
    let kbps = C::playing(s).kbps;
    if Calibration::measured(kbps) is Some {
        let point = Calibration::measured(kbps)->0;
        let seen = segment_seen(plant, legs, point, now, buf, kbps);
        let told = segment_told(plant, legs, point, now, buf);
        let noted = C::after_variant(s, point.response(), rate_told(told));
        let (state, decision) = C::after_segment(noted, told, instant(seen.at_ms));
        lemma_step_bounded(plant, legs, kbps, now, buf);
        lemma_segment_keeps_a_run_sound(plant, legs, kbps, decision, now, buf, report);
        lemma_acquisition_bounded(plant, point, plant.segment_ms as int, 1);
        if let Decision::Prime(proposal) = decision {
            lemma_transaction_keeps_a_run_sound::<C>(
                plant,
                legs,
                tx,
                state,
                proposal,
                point.response(),
                seen.at_ms,
                seen.buf_ms,
                report.with_segment(seen, decision),
            );
        }
    }
}

proof fn lemma_rest_of_a_run_is_sound<C: Controller>(
    plant: Plant,
    legs: Seq<(i64, u32)>,
    tx: TransactionModel,
    s: C::State,
    now: int,
    buf: int,
    report: ReportView,
)
    requires
        run_sound(plant, legs, report, now, buf),
    ensures
        run_from::<C>(plant, legs, tx, s, now, buf, report) matches Outcome::Completed {
            now: end,
            buf: left,
            report: last,
            ..
        } ==> {
            &&& run_sound(plant, legs, last, end, left)
            &&& end >= horizon_of(legs)
        },
    decreases larger(horizon_of(legs) - now, 0),
{
    if now < horizon_of(legs) {
        law_round_keeps_a_run_sound::<C>(plant, legs, tx, s, now, buf, report);
        if let Round::Continues { state, now: later, buf: left, report: after } = round::<C>(
            plant,
            legs,
            tx,
            s,
            now,
            buf,
            report,
        ) {
            lemma_rest_of_a_run_is_sound::<C>(plant, legs, tx, state, later, left, after);
        }
    }
}

/// Every run that completes is sound, and reaches the end of its schedule.
pub proof fn law_run_is_sound<C: Controller>(
    plant: Plant,
    legs: Seq<(i64, u32)>,
    tx: TransactionModel,
    s: C::State,
)
    ensures
        run_of::<C>(plant, legs, tx, s) matches Outcome::Completed { now, buf, report, .. } ==> {
            &&& run_sound(plant, legs, report, now, buf)
            &&& now >= horizon_of(legs)
        },
        plant.is_physical() ==> deepest_reserve(plant) == 0,
{
    if plant.is_physical() {
        law_physical_plant_owes_nothing(plant);
    }
    lemma_run_begins_sound(plant, legs);
    lemma_rest_of_a_run_is_sound::<C>(plant, legs, tx, s, 0, 0, ReportView::blank());
}

// ---- nothing is invented --------------------------------------------------------------------
/// A run that begins on a rung that nobody measured stops there, before its first segment.
pub proof fn law_uncalibrated_rung_stops_the_run<C: Controller>(
    plant: Plant,
    legs: Seq<(i64, u32)>,
    tx: TransactionModel,
    s: C::State,
)
    requires
        horizon_of(legs) > 0,
        Calibration::measured(C::playing(s).kbps) is None,
    ensures
        run_of::<C>(plant, legs, tx, s) == (Outcome::<C::State>::Failed {
            state: s,
            failure: Failure::Uncalibrated {
                kbps: C::playing(s).kbps,
                reached: Reached::Playing,
            },
        }),
{
    reveal(round);
}

proof fn lemma_rest_of_a_run_never_primed<C: Controller>(
    plant: Plant,
    legs: Seq<(i64, u32)>,
    tx: TransactionModel,
    s: C::State,
    now: int,
    buf: int,
    report: ReportView,
)
    requires
        tx.up_commit is None,
        tx.down_commit is None,
    ensures
        run_from::<C>(plant, legs, tx, s, now, buf, report) matches Outcome::Completed {
            report: last,
            ..
        } ==> last.primes == report.primes,
    decreases larger(horizon_of(legs) - now, 0),
{
    reveal(round);
    reveal(transaction);
    reveal(settled_attempt);
    if now < horizon_of(legs) {
        if let Round::Continues { state, now: later, buf: left, report: after } = round::<C>(
            plant,
            legs,
            tx,
            s,
            now,
            buf,
            report,
        ) {
            if later > now {
                lemma_rest_of_a_run_never_primed::<C>(plant, legs, tx, state, later, left, after);
            }
        }
    }
}

/// Where no commit leg was measured, a run completes only if its policy never asks for a
/// candidate.
pub proof fn law_unmeasured_legs_allow_no_transaction<C: Controller>(
    plant: Plant,
    legs: Seq<(i64, u32)>,
    tx: TransactionModel,
    s: C::State,
)
    requires
        tx.up_commit is None,
        tx.down_commit is None,
    ensures
        run_of::<C>(plant, legs, tx, s) matches Outcome::Completed { report, .. } ==> report.primes
            == 0,
{
    lemma_rest_of_a_run_never_primed::<C>(plant, legs, tx, s, 0, 0, ReportView::blank());
}

/// The listed rungs are exactly those that have an operating point, and exactly those that have a
/// settled reserve to grade it by. Every operating point carries a physical response.
pub proof fn law_calibrated_rungs_are_the_measured_ones(kbps: u32)
    ensures
        CALIBRATED@.contains(kbps) <==> Calibration::measured(kbps) is Some,
        CALIBRATED@.contains(kbps) <==> Calibration::census(kbps) is Some,
        Calibration::measured(kbps) matches Some(point) ==> point.is_physical()
            && point.declared_kbps == kbps,
{
    let listed = CALIBRATED@;
    assert(listed[0] == 320 && listed[1] == 720 && listed[2] == 2_000 && listed[3] == 4_000
        && listed[4] == 10_000 && listed[5] == 16_000 && listed[6] == 20_000);
}

/// At the queue size of the census, the plant's ceiling lies within five hundredths of the reserve
/// that the device settled at, on every rung that was measured.
pub proof fn law_ceiling_reproduces_the_census(plant: Plant, kbps: u32)
    requires
        plant == (Plant {
            video_queue_bytes: CENSUS_VIDEO_QUEUE_BYTES,
            audio_queue_bytes: AUDIO_QUEUE_BYTES,
            video_lead_ms: VIDEO_LEAD_MS,
            audio_lead_ms: AUDIO_LEAD_MS,
            segment_ms: plant.segment_ms,
        }),
        Calibration::measured(kbps) is Some,
    ensures
        ({
            let predicted = plant.ceiling(Calibration::measured(kbps)->0);
            let observed = Calibration::census(kbps)->0;
            -5 * observed <= 100 * (predicted - observed) <= 5 * observed
        }),
{
    assert(clamp_u64(plant.video_queue_bytes * 8) == 67_108_864);
    assert(clamp_u64(plant.audio_queue_bytes * 8) == 8_388_608);
    if kbps == 320 {
        lemma_bits_to_ms(67_108_864, 267, 251_344);
        lemma_bits_to_ms(8_388_608, 98, 85_598);
    } else if kbps == 720 {
        lemma_bits_to_ms(67_108_864, 649, 103_403);
        lemma_bits_to_ms(8_388_608, 131, 64_035);
    } else if kbps == 2_000 {
        lemma_bits_to_ms(67_108_864, 1_982, 33_859);
        lemma_bits_to_ms(8_388_608, 159, 52_758);
    } else if kbps == 4_000 {
        lemma_bits_to_ms(67_108_864, 4_064, 16_513);
        lemma_bits_to_ms(8_388_608, 159, 52_758);
    } else if kbps == 10_000 {
        lemma_bits_to_ms(67_108_864, 10_277, 6_530);
        lemma_bits_to_ms(8_388_608, 192, 43_690);
    } else if kbps == 16_000 {
        lemma_bits_to_ms(67_108_864, 15_967, 4_202);
        lemma_bits_to_ms(8_388_608, 192, 43_690);
    } else {
        lemma_bits_to_ms(67_108_864, 19_725, 3_402);
        lemma_bits_to_ms(8_388_608, 192, 43_690);
    }
}

// ---- the plant ------------------------------------------------------------------------------
/// Which leg of a schedule holds: the first one whose end still lies ahead.
pub proof fn law_capacity_is_the_first_leg_ahead(legs: Seq<(i64, u32)>, now: int)
    requires
        legs.len() > 0,
    ensures
        forall|i: int|
            #![trigger legs[i]]
            0 <= i < legs.len() && now < legs[i].0 && (forall|j: int|
                0 <= j < i ==> (#[trigger] legs[j]).0 <= now) ==> capacity_at(legs, now)
                == legs[i].1,
        (forall|j: int| 0 <= j < legs.len() ==> (#[trigger] legs[j]).0 <= now) ==> capacity_at(
            legs,
            now,
        ) == legs.last().1,
{
    lemma_leg_at(legs, now, 0);
}

proof fn lemma_leg_at(legs: Seq<(i64, u32)>, now: int, from: int)
    requires
        0 <= from <= legs.len(),
    ensures
        from <= leg_at(legs, now, from) <= legs.len(),
        forall|j: int| from <= j < leg_at(legs, now, from) ==> (#[trigger] legs[j]).0 <= now,
        leg_at(legs, now, from) < legs.len() ==> now < legs[leg_at(legs, now, from)].0,
    decreases legs.len() - from,
{
    if from < legs.len() && now >= legs[from].0 {
        lemma_leg_at(legs, now, from + 1);
    }
}

/// The stall and the drained reserve are one event seen twice: what the reserve could not cover of
/// the wall time is the stall.
pub proof fn law_reserve_and_stall_cover_the_wall(
    plant: Plant,
    legs: Seq<(i64, u32)>,
    point: OperatingPoint,
    now: int,
    buf: int,
    rung_kbps: u32,
)
    requires
        buf >= 0,
    ensures
        ({
            let seen = segment_seen(plant, legs, point, now, buf, rung_kbps);
            &&& smaller(buf, seen.wall_ms) + seen.stall_ms == seen.wall_ms
            &&& seen.at_ms > now
            &&& seen.buf_ms <= seen.b_max_ms
        }),
{
}

/// While the link neither empties the reserve nor fills the queues, the reserve moves by exactly
/// what the segment holds less what it took to acquire.
pub proof fn law_drain_identity(
    plant: Plant,
    legs: Seq<(i64, u32)>,
    point: OperatingPoint,
    now: int,
    buf: int,
    rung_kbps: u32,
)
    requires
        ({
            let acquire = acquisition_ms(point, plant.segment_ms as int, capacity_at(legs, now));
            &&& buf >= acquire
            &&& buf + plant.segment_ms - acquire <= plant.ceiling(point)
            &&& buf + plant.segment_ms <= i64::MAX
        }),
    ensures
        ({
            let seen = segment_seen(plant, legs, point, now, buf, rung_kbps);
            &&& seen.wall_ms == seen.acquire_ms
            &&& seen.stall_ms == 0
            &&& seen.buf_ms - buf == plant.segment_ms - seen.acquire_ms
        }),
{
}

/// Settled at the ceiling of a link that is fast enough, the clock moves by one segment and the
/// reserve stays, while the policy is told the acquisition alone.
pub proof fn law_settled_plant_tells_acquisition(
    plant: Plant,
    legs: Seq<(i64, u32)>,
    point: OperatingPoint,
    now: int,
    rung_kbps: u32,
)
    requires
        0 < plant.segment_ms <= u32::MAX,
        plant.ceiling(point) >= plant.segment_ms,
        plant.ceiling(point) + plant.segment_ms <= i64::MAX,
        acquisition_ms(point, plant.segment_ms as int, capacity_at(legs, now))
            <= plant.segment_ms,
    ensures
        ({
            let seen = segment_seen(plant, legs, point, now, plant.ceiling(point), rung_kbps);
            let told = segment_told(plant, legs, point, now, plant.ceiling(point));
            &&& seen.wall_ms == plant.segment_ms
            &&& seen.buf_ms == plant.ceiling(point)
            &&& seen.stall_ms == 0
            &&& told.total_fetch_us == seen.acquire_ms * 1_000
            &&& told.production_pm() == seen.acquire_ms * 1_000 / plant.segment_ms as int
        }),
{
}

/// A wider link never acquires a segment more slowly.
pub proof fn law_wider_link_is_no_slower(
    point: OperatingPoint,
    segment_ms: int,
    narrow_kbps: u32,
    wide_kbps: u32,
)
    requires
        narrow_kbps <= wide_kbps,
    ensures
        acquisition_ms(point, segment_ms, wide_kbps) <= acquisition_ms(
            point,
            segment_ms,
            narrow_kbps,
        ),
{
    assert(point.ts_kbps * larger(segment_ms, 0) >= 0) by (nonlinear_arith)
        requires
            point.ts_kbps >= 0,
            larger(segment_ms, 0) >= 0,
    ;
    lemma_bits_to_ms_ordered(
        segment_bits(point.ts_kbps, segment_ms),
        wide_kbps as int,
        narrow_kbps as int,
    );
}

// ---- transactions ---------------------------------------------------------------------------
/// A candidate that does not take over leaves nothing behind but the time that it took: the
/// reserve drains by the whole attempt and none of its objects becomes playable.
pub proof fn law_rejected_candidate_adds_nothing<C: Controller>(
    plant: Plant,
    s: C::State,
    proposal: Proposal,
    point: OperatingPoint,
    attempt: CandidateAttempt,
    now: int,
    buf: int,
    report: ReportView,
)
    requires
        !attempt.commits,
    ensures
        attempt_closed::<C>(plant, s, proposal, point, attempt, now, buf, report) matches
            Round::Continues { now: later, buf: left, report: after, .. } && {
            &&& later == now + attempt.spent_ms
            &&& left == larger(buf - attempt.spent_ms, 0)
            &&& after.rejects == report.rejects + 1
            &&& after.commits == report.commits
            &&& after.committed_candidate_objects == report.committed_candidate_objects
        },
{
    reveal(attempt_closed);
}

/// A candidate that takes over publishes all of its objects at once, after the old reserve has
/// drained by the whole attempt.
pub proof fn law_committed_candidate_publishes_its_objects<C: Controller>(
    plant: Plant,
    s: C::State,
    proposal: Proposal,
    point: OperatingPoint,
    attempt: CandidateAttempt,
    now: int,
    buf: int,
    report: ReportView,
)
    requires
        attempt.commits,
        !attempt.expired,
    ensures
        attempt_closed::<C>(plant, s, proposal, point, attempt, now, buf, report) matches
            Round::Continues { now: later, buf: left, report: after, .. } ==> {
            &&& later == now + attempt.spent_ms
            &&& left == reserve_published(
                plant,
                point,
                larger(buf - attempt.spent_ms, 0),
                attempt.staged_objects,
            )
            &&& after.rejects == report.rejects
            &&& after.commits == report.commits.push((later, proposal.rung.kbps))
            &&& after.committed_candidate_objects == smaller(
                report.committed_candidate_objects + attempt.staged_objects,
                u32::MAX as int,
            )
        },
{
    reveal(attempt_closed);
}

/// An attempt that settles a proposal is charged its own leg: one that commits the commit leg's
/// cost, any other the reject leg's, and then the commit leg's would not have committed either.
pub proof fn law_settled_attempt_is_charged_its_own_leg<C: Controller>(
    s: C::State,
    proposal: Proposal,
    tx: TransactionModel,
    setting: Setting,
    active: ObservedHlsVariant,
)
    ensures
        settled_attempt::<C>(s, proposal, tx, setting, active) matches Ok(attempt) ==> {
            let direction = proposal.direction;
            &&& tx.cost(direction, true) is Some
            &&& attempt.commits <==> attempt_of::<C>(
                s,
                proposal,
                setting.at(tx.cost(direction, true)->0),
                active,
            ).commits
            &&& tx.cost(direction, attempt.commits) is Some
            &&& attempt == attempt_of::<C>(
                s,
                proposal,
                setting.at(tx.cost(direction, attempt.commits)->0),
                active,
            )
        },
{
    reveal(settled_attempt);
}

/// A transaction that needs a leg that nobody measured stops the run, whatever the other legs
/// cost.
pub proof fn law_unmeasured_leg_stops_the_run<C: Controller>(
    plant: Plant,
    legs: Seq<(i64, u32)>,
    tx: TransactionModel,
    s: C::State,
    proposal: Proposal,
    active: ObservedHlsVariant,
    now: int,
    buf: int,
    report: ReportView,
)
    requires
        tx.cost(proposal.direction, true) is None,
    ensures
        transaction::<C>(plant, legs, tx, s, proposal, active, now, buf, report) is Stops,
        Calibration::measured(proposal.rung.kbps) is Some ==> (arming_of::<C>(
            s,
            proposal,
            buf,
        ) matches Arming::Armed { state, .. } ==> transaction::<C>(
            plant,
            legs,
            tx,
            s,
            proposal,
            active,
            now,
            buf,
            report,
        ) == (Round::<C::State>::Stops {
            state,
            failure: Failure::Unmeasured { direction: proposal.direction, commit: true },
        })),
{
    reveal(transaction);
    reveal(settled_attempt);
}

} // verus!
