//! What a turn of the loop does, and what a whole run accounts for.
use vstd::prelude::*;

use crate::abr::calibration::Calibration;
use crate::abr::laws::{
    attempt_sound, deepest_debt, floor_point, law_attempt_is_sound,
    law_physical_plant_owes_nothing, longest_acquisition, run_fits,
};
use crate::abr::plant::{
    capacity_at, horizon_of, OperatingPoint, Plant, TransactionCost, TransactionModel,
};
use crate::abr::segment_laws::{is_span, law_segment_conserves_media};
use crate::abr::sim::{
    arming_of, attempt_closed, attempt_of, instant, rate_told, round, run_from, run_of,
    segment_seen, segment_told, settled_attempt, transaction, Arming, CandidateAttempt, Failure,
    ObservedView, Outcome, Reached, ReportView, Round, Setting, Terms,
};
use crate::abr::{Controller, Decision, Direction, ObservedHlsVariant, Proposal, RejectCause};
use crate::arith::{larger, lemma_bits_to_ms};
use crate::text::decimal;

verus! {

// ---- what a report records ------------------------------------------------------------------
/// A segment is recorded as it was seen, its stall is counted, and the answer to the very first
/// one is kept with the reserve that it was given at.
pub proof fn law_segment_is_recorded(report: ReportView, seen: ObservedView, decision: Decision)
    ensures
        ({
            let after = report.with_segment(seen, decision);
            &&& after.samples == report.samples.push(seen)
            &&& after.stall_ms_total - report.stall_ms_total == seen.stall_ms
            &&& after.stall_ms_max >= report.stall_ms_max && after.stall_ms_max >= seen.stall_ms
            &&& after.stall_ms_max == report.stall_ms_max || after.stall_ms_max == seen.stall_ms
            &&& report.first_decision is None ==> after.first_decision == Some(decision)
                && after.first_buf_ms == seen.buf_ms
            &&& report.first_decision is Some ==> after.first_decision == report.first_decision
                && after.first_buf_ms == report.first_buf_ms
            &&& after.commits == report.commits
            &&& after.primes == report.primes
            &&& after.rejects == report.rejects
            &&& after.tx_control_plane_ms == report.tx_control_plane_ms
            &&& after.tx_media_ms == report.tx_media_ms
            &&& after.committed_candidate_objects == report.committed_candidate_objects
        }),
{
}

/// A proposal is counted, and nothing else changes.
pub proof fn law_proposal_is_counted(report: ReportView)
    ensures
        report.with_prime().primes == report.primes + 1,
        report.with_prime() == (ReportView { primes: report.primes + 1, ..report }),
{
}

// ---- closing an attempt ---------------------------------------------------------------------
/// Closing an attempt, whatever came of it, moves the clock by all that it spent, counts both
/// parts of its time, and counts as a stall what the reserve could not cover. No segment is
/// recorded.
pub proof fn law_closing_counts_the_whole_attempt<C: Controller>(
    plant: Plant,
    s: C::State,
    proposal: Proposal,
    point: OperatingPoint,
    attempt: CandidateAttempt,
    now: int,
    buf: int,
    report: ReportView,
)
    ensures
        attempt_closed::<C>(plant, s, proposal, point, attempt, now, buf, report) matches
            Round::Continues { now: later, report: after, .. } ==> {
            let uncovered = if attempt.spent_ms > buf {
                attempt.spent_ms - buf
            } else {
                0
            };
            &&& later == now + attempt.spent_ms
            &&& after.tx_control_plane_ms == report.tx_control_plane_ms + attempt.control_ms
            &&& after.tx_media_ms == report.tx_media_ms + attempt.media_ms
            &&& after.stall_ms_total == report.stall_ms_total + uncovered
            &&& after.stall_ms_max >= report.stall_ms_max && after.stall_ms_max >= uncovered
            &&& after.stall_ms_max == report.stall_ms_max || after.stall_ms_max == uncovered
            &&& after.samples == report.samples
            &&& after.primes == report.primes
            &&& after.first_decision == report.first_decision
            &&& after.first_buf_ms == report.first_buf_ms
            &&& (after.rejects == report.rejects + 1 && after.commits == report.commits) || (
            after.rejects == report.rejects && after.commits == report.commits.push(
                (later, proposal.rung.kbps),
            ))
        },
{
    reveal(attempt_closed);
}

/// A candidate that takes over adds one segment for each object that it had fetched to what the
/// attempt left of the old reserve, as far as the candidate's own ceiling lets it. One object adds
/// at most one segment, two at most two. It stops the run only where the policy refuses it.
pub proof fn law_commit_publishes_what_was_staged<C: Controller>(
    plant: Plant,
    s: C::State,
    proposal: Proposal,
    point: OperatingPoint,
    attempt: CandidateAttempt,
    now: int,
    buf: int,
    report: ReportView,
)
    requires
        attempt.commits,
        !attempt.expired,
        attempt.staged_objects <= 2,
        is_span(plant.segment_ms as int),
        is_span(buf),
        is_span(attempt.spent_ms as int),
        0 <= now + attempt.spent_ms <= u64::MAX,
    ensures
        ({
            let left = if attempt.spent_ms > buf {
                0
            } else {
                buf - attempt.spent_ms
            };
            let full = if attempt.staged_objects == 0 {
                left
            } else if attempt.staged_objects == 1 {
                left + plant.segment_ms
            } else {
                left + plant.segment_ms + plant.segment_ms
            };
            let response = ObservedHlsVariant {
                declared_bps: (point.declared_kbps * 1_000) as u64,
                width: point.decoded_width as i32,
                height: point.decoded_height as i32,
            };
            let (state, accepted) = C::after_commit(
                s,
                proposal,
                attempt.final_sample->0,
                response,
                (now + attempt.spent_ms) as u64,
            );
            match attempt_closed::<C>(plant, s, proposal, point, attempt, now, buf, report) {
                Round::Continues { state: after_state, buf: published, report: after, .. } => {
                    &&& accepted
                    &&& after_state == state
                    &&& published <= plant.ceiling(point)
                    &&& published <= full
                    &&& published == full || published == plant.ceiling(point)
                    &&& after.commits == report.commits.push(
                        (now + attempt.spent_ms, proposal.rung.kbps),
                    )
                    &&& report.committed_candidate_objects + attempt.staged_objects <= u32::MAX
                        ==> after.committed_candidate_objects
                        == report.committed_candidate_objects + attempt.staged_objects
                    &&& after.rejects == report.rejects
                },
                Round::Stops { state: after_state, failure } => {
                    &&& !accepted
                    &&& after_state == state
                    &&& failure == (Failure::CommitRefused { kbps: proposal.rung.kbps })
                },
            }
        }),
{
    reveal(attempt_closed);
    assert(plant.segment_ms * 0 == 0);
    assert(plant.segment_ms * 1 == plant.segment_ms);
    assert(plant.segment_ms * 2 == plant.segment_ms + plant.segment_ms);
}

/// A candidate that does not take over leaves the reserve what the attempt left of it, and the
/// policy hears why: because the budget ran out, or because of the candidate itself.
pub proof fn law_rejection_says_why<C: Controller>(
    plant: Plant,
    s: C::State,
    proposal: Proposal,
    point: OperatingPoint,
    attempt: CandidateAttempt,
    now: int,
    buf: int,
    report: ReportView,
)
    requires
        attempt.expired || !attempt.commits,
        0 <= now + attempt.spent_ms <= u64::MAX,
    ensures
        ({
            let cause = if attempt.expired {
                RejectCause::Censored
            } else {
                RejectCause::Candidate
            };
            attempt_closed::<C>(plant, s, proposal, point, attempt, now, buf, report) matches
                Round::Continues { state, now: later, buf: left, report: after } && {
                &&& state == C::after_reject(s, proposal, cause, (now + attempt.spent_ms) as u64)
                &&& buf >= attempt.spent_ms ==> left == buf - attempt.spent_ms
                &&& buf < attempt.spent_ms ==> left == 0
                &&& after.rejects == report.rejects + 1
                &&& after.commits == report.commits
                &&& after.committed_candidate_objects == report.committed_candidate_objects
            }
        }),
{
    reveal(attempt_closed);
}

// ---- a transaction --------------------------------------------------------------------------
/// A proposal is refused where a leg that it needs was not measured, and where its two legs
/// contradict each other: the one for a commit rejects, and the one for a rejection commits.
pub proof fn law_settling_refuses_what_was_not_measured<C: Controller>(
    s: C::State,
    proposal: Proposal,
    tx: TransactionModel,
    setting: Setting,
    active: ObservedHlsVariant,
)
    ensures
        ({
            let direction = proposal.direction;
            let commit_leg = tx.cost(direction, true);
            let reject_leg = tx.cost(direction, false);
            let commits_on_commit = attempt_of::<C>(
                s,
                proposal,
                setting.at(commit_leg->0),
                active,
            ).commits;
            let commits_on_reject = attempt_of::<C>(
                s,
                proposal,
                setting.at(reject_leg->0),
                active,
            ).commits;
            match settled_attempt::<C>(s, proposal, tx, setting, active) {
                Ok(_) => commit_leg is Some && (commits_on_commit || reject_leg is Some
                    && !commits_on_reject),
                Err(failure) => {
                    ||| commit_leg is None && failure == (Failure::Unmeasured {
                        direction,
                        commit: true,
                    })
                    ||| commit_leg is Some && !commits_on_commit && reject_leg is None && failure
                        == (Failure::Unmeasured { direction, commit: false })
                    ||| commit_leg is Some && !commits_on_commit && reject_leg is Some
                        && commits_on_reject && failure == (Failure::Contradictory {
                        kbps: proposal.rung.kbps,
                    })
                },
            }
        }),
{
    reveal(settled_attempt);
}

/// The terms of an attempt are the setting's, whatever its cost.
pub proof fn law_setting_is_kept_at_every_cost(
    setting: Setting,
    cost: TransactionCost,
)
    ensures
        setting.at(cost).plant == setting.plant,
        setting.at(cost).point == setting.point,
        setting.at(cost).capacity_kbps == setting.capacity_kbps,
        setting.at(cost).reserve_ms == setting.reserve_ms,
        setting.at(cost).budget_ms == setting.budget_ms,
        setting.at(cost).cost == cost,
{
}

/// A transaction is tried with the candidate's own measured point, over the capacity of the
/// instant at which it begins, from the reserve of that instant and with the budget that it was
/// armed with. It goes on exactly where all of that is there and the attempt settles, and then
/// closes that attempt.
pub proof fn law_transaction_is_tried_where_it_stands<C: Controller>(
    plant: Plant,
    legs: Seq<(i64, u32)>,
    tx: TransactionModel,
    s: C::State,
    proposal: Proposal,
    active: ObservedHlsVariant,
    now: int,
    buf: int,
    report: ReportView,
)
    requires
        i64::MIN <= buf <= i64::MAX,
    ensures
        ({
            let went = transaction::<C>(plant, legs, tx, s, proposal, active, now, buf, report);
            let kbps = proposal.rung.kbps;
            match Calibration::measured(kbps) {
                None => went matches Round::Stops { state, failure } && state == s && failure
                    == (Failure::Uncalibrated {
                    kbps,
                    reached: if proposal.direction == Direction::Up {
                        Reached::Upshift
                    } else {
                        Reached::Downshift
                    },
                }),
                Some(point) => match arming_of::<C>(s, proposal, buf) {
                    Arming::Stops { state, failure } => went == (Round::<C::State>::Stops {
                        state,
                        failure,
                    }),
                    Arming::Armed { state, budget_ms } => forall|setting: Setting|
                        setting.plant == plant && setting.point == point && setting.capacity_kbps
                            == capacity_at(legs, now) && setting.reserve_ms == buf
                            && setting.budget_ms == budget_ms ==> (
                        match #[trigger] settled_attempt::<C>(
                            state,
                            proposal,
                            tx,
                            setting,
                            active,
                        ) {
                            Err(failure) => went == (Round::<C::State>::Stops { state, failure }),
                            Ok(attempt) => went == attempt_closed::<C>(
                                plant,
                                state,
                                proposal,
                                point,
                                attempt,
                                now,
                                buf,
                                report,
                            ),
                        }),
                },
            }
        }),
{
    reveal(transaction);
    if let Some(point) = Calibration::measured(proposal.rung.kbps) {
        if let Arming::Armed { state, budget_ms } = arming_of::<C>(s, proposal, buf) {
            let tried = Setting {
                plant,
                point,
                capacity_kbps: capacity_at(legs, now),
                reserve_ms: buf as i64,
                budget_ms,
            };
            assert forall|setting: Setting|
                setting.plant == plant && setting.point == point && setting.capacity_kbps
                    == capacity_at(legs, now) && setting.reserve_ms == buf && setting.budget_ms
                    == budget_ms implies setting == tried by {}
        }
    }
}

// ---- a turn ---------------------------------------------------------------------------------
/// A turn fetches one segment of the rung that the policy plays, at that rung's measured point.
/// The policy hears first which response is decoded and at which rate it came, then of the segment
/// and of the instant at which it had landed. Where it holds, the turn is over; where it proposes,
/// the proposal is tried from that instant and that reserve.
pub proof fn law_turn_is_one_segment_and_one_answer<C: Controller>(
    plant: Plant,
    legs: Seq<(i64, u32)>,
    tx: TransactionModel,
    s: C::State,
    now: int,
    buf: int,
    report: ReportView,
    point: OperatingPoint,
    response: ObservedHlsVariant,
    state: C::State,
    decision: Decision,
)
    requires
        Calibration::measured(C::playing(s).kbps) == Some(point),
        response.declared_bps == point.declared_kbps * 1_000,
        response.width == point.decoded_width,
        response.height == point.decoded_height,
        0 <= segment_seen(plant, legs, point, now, buf, C::playing(s).kbps).at_ms <= u64::MAX,
        ({
            let seen = segment_seen(plant, legs, point, now, buf, C::playing(s).kbps);
            let told = segment_told(plant, legs, point, now, buf);
            (state, decision) == C::after_segment(
                C::after_variant(s, response, rate_told(told)),
                told,
                seen.at_ms as u64,
            )
        }),
    ensures
        ({
            let seen = segment_seen(plant, legs, point, now, buf, C::playing(s).kbps);
            let turn = round::<C>(plant, legs, tx, s, now, buf, report);
            match decision {
                Decision::Hold => turn matches Round::Continues {
                    state: after_state,
                    now: later,
                    buf: left,
                    report: after,
                } && after_state == state && later == seen.at_ms && left == seen.buf_ms && after
                    == report.with_segment(seen, decision),
                Decision::Prime(proposal) => turn == transaction::<C>(
                    plant,
                    legs,
                    tx,
                    state,
                    proposal,
                    response,
                    seen.at_ms,
                    seen.buf_ms,
                    report.with_segment(seen, decision).with_prime(),
                ),
            }
        }),
{
    reveal(round);
    assert(response == point.response());
}

/// A turn on a rung that nobody measured stops at once, with the policy as it was.
pub proof fn law_turn_needs_a_measured_rung<C: Controller>(
    plant: Plant,
    legs: Seq<(i64, u32)>,
    tx: TransactionModel,
    s: C::State,
    now: int,
    buf: int,
    report: ReportView,
)
    requires
        Calibration::measured(C::playing(s).kbps) is None,
    ensures
        round::<C>(plant, legs, tx, s, now, buf, report) == (Round::<C::State>::Stops {
            state: s,
            failure: Failure::Uncalibrated {
                kbps: C::playing(s).kbps,
                reached: Reached::Playing,
            },
        }),
{
    reveal(round);
}

/// A run takes turns from nothing until its schedule ends: the first begins at zero with an empty
/// reserve and a blank report, each of the others where the last left off, and a turn that stops
/// stops the run.
pub proof fn law_run_takes_turns<C: Controller>(
    plant: Plant,
    legs: Seq<(i64, u32)>,
    tx: TransactionModel,
    s: C::State,
    now: int,
    buf: int,
    report: ReportView,
    nothing: ReportView,
)
    requires
        nothing.samples.len() == 0,
        nothing.commits.len() == 0,
        nothing.primes == 0,
        nothing.rejects == 0,
        nothing.stall_ms_total == 0,
        nothing.stall_ms_max == 0,
        nothing.tx_control_plane_ms == 0,
        nothing.tx_media_ms == 0,
        nothing.committed_candidate_objects == 0,
        nothing.first_decision is None,
        nothing.first_buf_ms == 0,
    ensures
        run_of::<C>(plant, legs, tx, s) == run_from::<C>(plant, legs, tx, s, 0, 0, nothing),
        now >= horizon_of(legs) ==> run_from::<C>(plant, legs, tx, s, now, buf, report) == (
        Outcome::<C::State>::Completed { state: s, now, buf, report }),
        now < horizon_of(legs) ==> match round::<C>(plant, legs, tx, s, now, buf, report) {
            Round::Stops { state, failure } => run_from::<C>(
                plant,
                legs,
                tx,
                s,
                now,
                buf,
                report,
            ) == (Outcome::<C::State>::Failed { state, failure }),
            Round::Continues { state, now: later, buf: left, report: after } => later > now
                ==> run_from::<C>(plant, legs, tx, s, now, buf, report) == run_from::<C>(
                plant,
                legs,
                tx,
                state,
                later,
                left,
                after,
            ),
        },
{
    assert(nothing.samples =~= ReportView::blank().samples);
    assert(nothing.commits =~= ReportView::blank().commits);
    assert(nothing == ReportView::blank());
}

/// Whether every span of a leg's cost is one that a playback can come to.
pub open spec fn plain_cost(cost: Option<TransactionCost>) -> bool {
    cost matches Some(cost) ==> is_span(cost.control_plane_ms as int) && is_span(
        cost.warmup_acq_ms as int,
    ) && is_span(cost.graded_acq_ms as int)
}

/// A run of an ordinary plant fits its clock for as long as its counters can count, whatever its
/// legs cost: seven weeks of playback.
pub proof fn law_ordinary_run_fits(plant: Plant, legs: Seq<(i64, u32)>, tx: TransactionModel)
    requires
        plant.is_physical(),
        plant.segment_ms <= u32::MAX,
        is_span(plant.ceiling(floor_point())),
        plain_cost(tx.up_commit),
        plain_cost(tx.up_reject),
        plain_cost(tx.down_commit),
        plain_cost(tx.down_reject),
        horizon_of(legs) <= u32::MAX,
    ensures
        run_fits(plant, legs, tx),
{
    law_physical_plant_owes_nothing(plant);
    let bits = 20_706 * plant.segment_ms;
    lemma_bits_to_ms(bits, 1, bits);
    assert(longest_acquisition(plant) == bits + 323);
    assert(horizon_of(legs) * deepest_debt(plant) == 0) by (nonlinear_arith)
        requires
            deepest_debt(plant) == 0,
    ;
}

/// What a stopped run says. The rung, the reserve, the leg and the way in which the run came to it
/// are all named.
pub proof fn law_failure_says_what_is_missing(kbps: u32, reserve_ms: i64)
    ensures
        (Failure::Uncalibrated { kbps, reached: Reached::Playing }).text() == "rung "@ + decimal(
            kbps as int,
        )
            + "kbps is UNCALIBRATED — measure it before simulating it (reached via the rung being played)"@,
        (Failure::Uncalibrated { kbps, reached: Reached::Upshift }).text() == "rung "@ + decimal(
            kbps as int,
        )
            + "kbps is UNCALIBRATED — measure it before simulating it (reached via an UPSHIFT proposal)"@,
        (Failure::Uncalibrated { kbps, reached: Reached::Downshift }).text() == "rung "@ + decimal(
            kbps as int,
        )
            + "kbps is UNCALIBRATED — measure it before simulating it (reached via a DOWNSHIFT proposal)"@,
        (Failure::Unmeasured { direction: Direction::Up, commit: true }).text()
            == "transaction leg Up/commit is UNMEASURED — increment I2 exists to measure it"@,
        (Failure::Unmeasured { direction: Direction::Up, commit: false }).text()
            == "transaction leg Up/reject is UNMEASURED — increment I2 exists to measure it"@,
        (Failure::Unmeasured { direction: Direction::Down, commit: true }).text()
            == "transaction leg Down/commit is UNMEASURED — increment I2 exists to measure it"@,
        (Failure::Unmeasured { direction: Direction::Down, commit: false }).text()
            == "transaction leg Down/reject is UNMEASURED — increment I2 exists to measure it"@,
        (Failure::NoReserve { kbps, reserve_ms }).text() == "upward proposal "@ + decimal(
            kbps as int,
        ) + "kbps has no executable exploration reserve at "@ + decimal(reserve_ms as int) + "ms"@,
        (Failure::LostFrontier { kbps }).text() == "upward proposal "@ + decimal(kbps as int)
            + "kbps lost its executable exploration frontier"@,
        (Failure::Contradictory { kbps }).text() == "transaction model is self-contradictory at "@
            + decimal(kbps as int) + "kbps: commit leg rejects but reject leg commits"@,
        (Failure::CommitRefused { kbps }).text()
            == "controller refused candidate after the plant had authorized its commit at "@
            + decimal(kbps as int) + "kbps"@,
{
    lemma_uncalibrated_text(kbps);
    lemma_unmeasured_text();
}

proof fn lemma_uncalibrated_text(kbps: u32)
    ensures
        "kbps is UNCALIBRATED — measure it before simulating it (reached via the rung being played)"@
            == "kbps is UNCALIBRATED — measure it before simulating it (reached via "@
            + "the rung being played"@ + ")"@,
        "kbps is UNCALIBRATED — measure it before simulating it (reached via an UPSHIFT proposal)"@
            == "kbps is UNCALIBRATED — measure it before simulating it (reached via "@
            + "an UPSHIFT proposal"@ + ")"@,
        "kbps is UNCALIBRATED — measure it before simulating it (reached via a DOWNSHIFT proposal)"@
            == "kbps is UNCALIBRATED — measure it before simulating it (reached via "@
            + "a DOWNSHIFT proposal"@ + ")"@,
        forall|reached: Reached|
            #[trigger] (Failure::Uncalibrated { kbps, reached }).text() == "rung "@ + decimal(
                kbps as int,
            ) + ("kbps is UNCALIBRATED — measure it before simulating it (reached via "@ + (
            match reached {
                Reached::Playing => "the rung being played"@,
                Reached::Upshift => "an UPSHIFT proposal"@,
                Reached::Downshift => "a DOWNSHIFT proposal"@,
            }) + ")"@),
{
    reveal_strlit(
        "kbps is UNCALIBRATED — measure it before simulating it (reached via the rung being played)",
    );
    reveal_strlit(
        "kbps is UNCALIBRATED — measure it before simulating it (reached via an UPSHIFT proposal)",
    );
    reveal_strlit(
        "kbps is UNCALIBRATED — measure it before simulating it (reached via a DOWNSHIFT proposal)",
    );
    reveal_strlit("kbps is UNCALIBRATED — measure it before simulating it (reached via ");
    reveal_strlit("the rung being played");
    reveal_strlit("an UPSHIFT proposal");
    reveal_strlit("a DOWNSHIFT proposal");
    reveal_strlit(")");
    let head = "kbps is UNCALIBRATED — measure it before simulating it (reached via "@;
    assert("kbps is UNCALIBRATED — measure it before simulating it (reached via the rung being played)"@
        =~= head + "the rung being played"@ + ")"@);
    assert("kbps is UNCALIBRATED — measure it before simulating it (reached via an UPSHIFT proposal)"@
        =~= head + "an UPSHIFT proposal"@ + ")"@);
    assert("kbps is UNCALIBRATED — measure it before simulating it (reached via a DOWNSHIFT proposal)"@
        =~= head + "a DOWNSHIFT proposal"@ + ")"@);
    assert forall|reached: Reached|
        #[trigger] (Failure::Uncalibrated { kbps, reached }).text() == "rung "@ + decimal(
            kbps as int,
        ) + (head + (match reached {
            Reached::Playing => "the rung being played"@,
            Reached::Upshift => "an UPSHIFT proposal"@,
            Reached::Downshift => "a DOWNSHIFT proposal"@,
        }) + ")"@) by {
        let way = match reached {
            Reached::Playing => "the rung being played"@,
            Reached::Upshift => "an UPSHIFT proposal"@,
            Reached::Downshift => "a DOWNSHIFT proposal"@,
        };
        assert((Failure::Uncalibrated { kbps, reached }).text() =~= "rung "@ + decimal(kbps as int)
            + (head + way + ")"@));
    }
}

proof fn lemma_unmeasured_text()
    ensures
        "transaction leg Up/commit is UNMEASURED — increment I2 exists to measure it"@
            == "transaction leg "@ + "Up"@ + "/commit"@
            + " is UNMEASURED — increment I2 exists to measure it"@,
        "transaction leg Up/reject is UNMEASURED — increment I2 exists to measure it"@
            == "transaction leg "@ + "Up"@ + "/reject"@
            + " is UNMEASURED — increment I2 exists to measure it"@,
        "transaction leg Down/commit is UNMEASURED — increment I2 exists to measure it"@
            == "transaction leg "@ + "Down"@ + "/commit"@
            + " is UNMEASURED — increment I2 exists to measure it"@,
        "transaction leg Down/reject is UNMEASURED — increment I2 exists to measure it"@
            == "transaction leg "@ + "Down"@ + "/reject"@
            + " is UNMEASURED — increment I2 exists to measure it"@,
{
    reveal_strlit("transaction leg Up/commit is UNMEASURED — increment I2 exists to measure it");
    reveal_strlit("transaction leg Up/reject is UNMEASURED — increment I2 exists to measure it");
    reveal_strlit("transaction leg Down/commit is UNMEASURED — increment I2 exists to measure it");
    reveal_strlit("transaction leg Down/reject is UNMEASURED — increment I2 exists to measure it");
    reveal_strlit("transaction leg ");
    reveal_strlit("Up");
    reveal_strlit("Down");
    reveal_strlit("/commit");
    reveal_strlit("/reject");
    reveal_strlit(" is UNMEASURED — increment I2 exists to measure it");
    let tail = " is UNMEASURED — increment I2 exists to measure it"@;
    assert("transaction leg Up/commit is UNMEASURED — increment I2 exists to measure it"@
        =~= "transaction leg "@ + "Up"@ + "/commit"@ + tail);
    assert("transaction leg Up/reject is UNMEASURED — increment I2 exists to measure it"@
        =~= "transaction leg "@ + "Up"@ + "/reject"@ + tail);
    assert("transaction leg Down/commit is UNMEASURED — increment I2 exists to measure it"@
        =~= "transaction leg "@ + "Down"@ + "/commit"@ + tail);
    assert("transaction leg Down/reject is UNMEASURED — increment I2 exists to measure it"@
        =~= "transaction leg "@ + "Down"@ + "/reject"@ + tail);
}

// ---- what a whole run accounts for ----------------------------------------------------------
/// What all segments of a run stalled for.
pub open spec fn segments_stalled_ms(samples: Seq<ObservedView>) -> int
    decreases samples.len(),
{
    if samples.len() == 0 {
        0
    } else {
        segments_stalled_ms(samples.drop_last()) + samples.last().stall_ms
    }
}

/// What a run that stands at `now` with the reserve at `buf` accounts for.
///
/// Media: what is in reserve was fetched, one segment for each sample and for each candidate
/// object that became playable, and was not played yet. What was played is the clock less the
/// stalls.
///
/// Stalls: the total is at least what the segments stalled for, and the longest is no less than
/// any one of theirs.
///
/// Order: the first segment begins at zero and stalls for as long as it takes. Each of the others
/// begins no earlier than the last had landed.
pub open spec fn run_accounted(plant: Plant, report: ReportView, now: int, buf: int) -> bool {
    &&& plant.segment_ms >= 0 && report.committed_candidate_objects < u32::MAX ==> buf
        <= plant.segment_ms * (report.samples.len() + report.committed_candidate_objects) - (now
        - report.stall_ms_total)
    &&& segments_stalled_ms(report.samples) <= report.stall_ms_total
    &&& forall|i: int|
        0 <= i < report.samples.len() ==> (#[trigger] report.samples[i]).stall_ms
            <= report.stall_ms_max
    &&& report.samples.len() == 0 ==> now == 0 && buf == 0
    &&& report.samples.len() > 0 ==> {
        let first = report.samples[0];
        first.at_ms == first.wall_ms && first.stall_ms == first.wall_ms
    }
    &&& forall|i: int, j: int|
        0 <= i < j < report.samples.len() ==> (#[trigger] report.samples[i]).at_ms <= (
        #[trigger] report.samples[j]).at_ms - report.samples[j].wall_ms
    &&& forall|i: int|
        0 <= i < report.samples.len() ==> (#[trigger] report.samples[i]).at_ms <= now
    &&& report.committed_candidate_objects >= 0
}

proof fn lemma_segment_keeps_accounts(
    plant: Plant,
    legs: Seq<(i64, u32)>,
    point: OperatingPoint,
    kbps: u32,
    decision: Decision,
    now: int,
    buf: int,
    report: ReportView,
)
    requires
        run_accounted(plant, report, now, buf),
    ensures
        ({
            let seen = segment_seen(plant, legs, point, now, buf, kbps);
            run_accounted(plant, report.with_segment(seen, decision), seen.at_ms, seen.buf_ms)
        }),
{
    let seen = segment_seen(plant, legs, point, now, buf, kbps);
    let after = report.with_segment(seen, decision);
    law_segment_conserves_media(plant, legs, point, now, buf, kbps);
    assert(after.samples.drop_last() =~= report.samples);
    let fetched = report.samples.len() + report.committed_candidate_objects;
    assert(plant.segment_ms * (fetched + 1) == plant.segment_ms * fetched + plant.segment_ms)
        by (nonlinear_arith);
    assert(after.samples.len() + after.committed_candidate_objects == fetched + 1);
}

proof fn lemma_close_keeps_accounts<C: Controller>(
    plant: Plant,
    s: C::State,
    proposal: Proposal,
    point: OperatingPoint,
    attempt: CandidateAttempt,
    terms: Terms,
    now: int,
    buf: int,
    report: ReportView,
)
    requires
        run_accounted(plant, report, now, buf),
        report.samples.len() > 0,
        attempt_sound(terms, attempt),
    ensures
        attempt_closed::<C>(plant, s, proposal, point, attempt, now, buf, report) matches
            Round::Continues { now: later, buf: left, report: after, .. } ==> run_accounted(
            plant,
            after,
            later,
            left,
        ),
{
    reveal(attempt_closed);
    let fetched = report.samples.len() + report.committed_candidate_objects;
    assert(plant.segment_ms * (fetched + attempt.staged_objects) == plant.segment_ms * fetched
        + plant.segment_ms * attempt.staged_objects) by (nonlinear_arith);
    if plant.segment_ms >= 0 {
        assert(plant.segment_ms * attempt.staged_objects >= 0) by (nonlinear_arith)
            requires
                plant.segment_ms >= 0,
                attempt.staged_objects >= 0,
        ;
    }
}

proof fn lemma_transaction_keeps_accounts<C: Controller>(
    plant: Plant,
    legs: Seq<(i64, u32)>,
    tx: TransactionModel,
    s: C::State,
    proposal: Proposal,
    active: ObservedHlsVariant,
    now: int,
    buf: int,
    report: ReportView,
)
    requires
        run_accounted(plant, report, now, buf),
        report.samples.len() > 0,
    ensures
        transaction::<C>(plant, legs, tx, s, proposal, active, now, buf, report) matches
            Round::Continues { now: later, buf: left, report: after, .. } ==> run_accounted(
            plant,
            after,
            later,
            left,
        ) && later >= now,
{
    reveal(transaction);
    if let Some(point) = Calibration::measured(proposal.rung.kbps) {
        if let Arming::Armed { state, budget_ms } = arming_of::<C>(s, proposal, buf) {
            let setting = Setting {
                plant,
                point,
                capacity_kbps: capacity_at(legs, now),
                reserve_ms: buf as i64,
                budget_ms,
            };
            if let Ok(attempt) = settled_attempt::<C>(state, proposal, tx, setting, active) {
                reveal(settled_attempt);
                let commit_terms = setting.at(tx.cost(proposal.direction, true)->0);
                let reject_terms = setting.at(tx.cost(proposal.direction, false)->0);
                law_attempt_is_sound::<C>(state, proposal, commit_terms, active);
                law_attempt_is_sound::<C>(state, proposal, reject_terms, active);
                let terms = if attempt == attempt_of::<C>(state, proposal, commit_terms, active) {
                    commit_terms
                } else {
                    reject_terms
                };
                lemma_close_keeps_accounts::<C>(
                    plant,
                    state,
                    proposal,
                    point,
                    attempt,
                    terms,
                    now,
                    buf,
                    report,
                );
                law_closing_counts_the_whole_attempt::<C>(
                    plant,
                    state,
                    proposal,
                    point,
                    attempt,
                    now,
                    buf,
                    report,
                );
            }
        }
    }
}

proof fn lemma_round_keeps_accounts<C: Controller>(
    plant: Plant,
    legs: Seq<(i64, u32)>,
    tx: TransactionModel,
    s: C::State,
    now: int,
    buf: int,
    report: ReportView,
)
    requires
        run_accounted(plant, report, now, buf),
    ensures
        round::<C>(plant, legs, tx, s, now, buf, report) matches Round::Continues {
            now: later,
            buf: left,
            report: after,
            ..
        } ==> run_accounted(plant, after, later, left) && later > now,
{
    reveal(round);
    let kbps = C::playing(s).kbps;
    if let Some(point) = Calibration::measured(kbps) {
        let seen = segment_seen(plant, legs, point, now, buf, kbps);
        let told = segment_told(plant, legs, point, now, buf);
        let noted = C::after_variant(s, point.response(), rate_told(told));
        let (state, decision) = C::after_segment(noted, told, instant(seen.at_ms));
        lemma_segment_keeps_accounts(plant, legs, point, kbps, decision, now, buf, report);
        if let Decision::Prime(proposal) = decision {
            let heard = report.with_segment(seen, decision).with_prime();
            assert(run_accounted(plant, heard, seen.at_ms, seen.buf_ms));
            lemma_transaction_keeps_accounts::<C>(
                plant,
                legs,
                tx,
                state,
                proposal,
                point.response(),
                seen.at_ms,
                seen.buf_ms,
                heard,
            );
        }
    }
}

proof fn lemma_rest_of_a_run_keeps_accounts<C: Controller>(
    plant: Plant,
    legs: Seq<(i64, u32)>,
    tx: TransactionModel,
    s: C::State,
    now: int,
    buf: int,
    report: ReportView,
)
    requires
        run_accounted(plant, report, now, buf),
    ensures
        run_from::<C>(plant, legs, tx, s, now, buf, report) matches Outcome::Completed {
            now: end,
            buf: left,
            report: last,
            ..
        } ==> run_accounted(plant, last, end, left),
    decreases larger(horizon_of(legs) - now, 0),
{
    if now < horizon_of(legs) {
        lemma_round_keeps_accounts::<C>(plant, legs, tx, s, now, buf, report);
        if let Round::Continues { state, now: later, buf: left, report: after } = round::<C>(
            plant,
            legs,
            tx,
            s,
            now,
            buf,
            report,
        ) {
            lemma_rest_of_a_run_keeps_accounts::<C>(plant, legs, tx, state, later, left, after);
        }
    }
}

/// Every run accounts for its media, its stalls and its order: what it holds in reserve at the end
/// is never more than what it fetched less what it played.
pub proof fn law_run_accounts_for_its_media<C: Controller>(
    plant: Plant,
    legs: Seq<(i64, u32)>,
    tx: TransactionModel,
    s: C::State,
)
    ensures
        run_of::<C>(plant, legs, tx, s) matches Outcome::Completed { now, buf, report, .. }
            ==> run_accounted(plant, report, now, buf),
{
    let blank = ReportView::blank();
    assert(plant.segment_ms * 0 == 0);
    assert(blank.samples.len() + blank.committed_candidate_objects == 0);
    assert(run_accounted(plant, blank, 0, 0));
    lemma_rest_of_a_run_keeps_accounts::<C>(plant, legs, tx, s, 0, 0, blank);
}

} // verus!
