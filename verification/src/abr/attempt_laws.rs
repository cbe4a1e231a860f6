//! What trying a candidate costs, what the policy hears of it, and when it qualifies.
use vstd::prelude::*;

use crate::abr::segment_laws::{fits_times, is_span};
use crate::abr::plant::Plant;
use crate::abr::sim::{arming_of, attempt_of, Arming, Failure, Terms};
use crate::abr::{
    CandidateVerdict, Controller, Direction, ObservedHlsVariant, Proposal, SegmentSample,
};
use crate::arith::lemma_bits_to_ms;

verus! {

/// Terms as a playback has them: segments hold content, the link carries something, an object
/// transfers in `transfer` whole milliseconds, and no span leaves the machine.
pub open spec fn plain_terms(terms: Terms, transfer: int) -> bool {
    &&& 0 < terms.plant.segment_ms <= u32::MAX
    &&& fits_times(
        transfer,
        terms.capacity_kbps as int,
        terms.point.ts_kbps * terms.plant.segment_ms,
    )
    &&& is_span(transfer)
    &&& is_span(terms.reserve_ms as int)
    &&& is_span(terms.point.overhead_ms as int)
    &&& is_span(terms.cost.control_plane_ms as int)
    &&& is_span(terms.cost.warmup_acq_ms as int)
    &&& is_span(terms.cost.graded_acq_ms as int)
}

/// Whether `ms` is what an object takes that transfers in `transfer` and is recorded to take
/// `cost`: no less than either, than its overhead with its transfer, or than a millisecond, and no
/// more than the largest of them.
pub open spec fn object_takes(ms: int, transfer: int, overhead: int, cost: int) -> bool {
    &&& ms >= transfer + overhead
    &&& ms >= cost
    &&& ms >= 1
    &&& ms == transfer + overhead || ms == cost || ms == 1
}

/// Whether `sample` tells of an object of this candidate that took `acquire`, with `left` in
/// reserve after it.
pub open spec fn object_told(
    sample: SegmentSample,
    terms: Terms,
    transfer: int,
    acquire: int,
    left: int,
) -> bool {
    let bits = terms.point.ts_kbps * terms.plant.segment_ms;
    &&& bits >= 8 ==> sample.bytes * 8 <= bits < sample.bytes * 8 + 8
    &&& bits < 8 ==> sample.bytes == 1
    &&& transfer >= 1 ==> sample.active_fetch_us == transfer * 1_000
    &&& transfer == 0 ==> sample.active_fetch_us == 1_000
    &&& acquire >= transfer ==> sample.total_fetch_us == acquire * 1_000
    &&& acquire < transfer ==> sample.total_fetch_us == transfer * 1_000
    &&& sample.media_ms == terms.plant.segment_ms
    &&& sample.buffer.playback.0 == 0
    &&& sample.buffer.audio_expected
    &&& left >= 0 ==> sample.buffer.video_tail.0 == left
    &&& left < 0 ==> sample.buffer.video_tail.0 == 0
    &&& sample.buffer.audio_tail == Some(sample.buffer.video_tail)
}

proof fn lemma_terms(terms: Terms, transfer: int)
    requires
        plain_terms(terms, transfer),
    ensures
        terms.transfer_ms() == transfer,
        terms.bits() == terms.point.ts_kbps * terms.plant.segment_ms,
{
    assert(terms.point.ts_kbps * terms.plant.segment_ms <= u64::MAX) by (nonlinear_arith)
        requires
            0 <= terms.point.ts_kbps <= 0xffff_ffff,
            0 < terms.plant.segment_ms <= 0xffff_ffff,
    ;
    lemma_bits_to_ms(
        terms.point.ts_kbps * terms.plant.segment_ms,
        terms.capacity_kbps as int,
        transfer,
    );
}

/// An attempt that ends in time has paid for its control plane and for every object that it
/// fetched: each its transfer and overhead over this link, and no less than the leg's recorded
/// cost.
pub proof fn law_attempt_pays_for_every_object<C: Controller>(
    s: C::State,
    proposal: Proposal,
    terms: Terms,
    active: ObservedHlsVariant,
    transfer: int,
)
    requires
        plain_terms(terms, transfer),
    ensures
        ({
            let attempt = attempt_of::<C>(s, proposal, terms, active);
            let object = transfer + terms.point.overhead_ms;
            !attempt.expired ==> {
                &&& attempt.staged_objects == 1 || attempt.staged_objects == 2
                &&& attempt.media_ms >= attempt.staged_objects * object
                &&& attempt.media_ms >= terms.cost.warmup_acq_ms
                &&& attempt.staged_objects == 1 ==> object_takes(
                    attempt.media_ms as int,
                    transfer,
                    terms.point.overhead_ms as int,
                    terms.cost.warmup_acq_ms as int,
                )
                &&& attempt.staged_objects == 2 ==> exists|first: int, second: int|
                    attempt.media_ms == first + second && #[trigger] object_takes(
                        first,
                        transfer,
                        terms.point.overhead_ms as int,
                        terms.cost.warmup_acq_ms as int,
                    ) && #[trigger] object_takes(
                        second,
                        transfer,
                        terms.point.overhead_ms as int,
                        terms.cost.graded_acq_ms as int,
                    )
                &&& terms.cost.control_plane_ms >= 0 ==> attempt.control_ms
                    == terms.cost.control_plane_ms
                &&& terms.cost.control_plane_ms < 0 ==> attempt.control_ms == 0
                &&& attempt.spent_ms == attempt.control_ms + attempt.media_ms
            }
        }),
{
    lemma_terms(terms, transfer);
    let attempt = attempt_of::<C>(s, proposal, terms, active);
    if !attempt.expired && attempt.staged_objects == 2 {
        let first = terms.warmup_ms();
        let second = terms.graded_ms();
        assert(object_takes(
            first,
            transfer,
            terms.point.overhead_ms as int,
            terms.cost.warmup_acq_ms as int,
        ));
        assert(object_takes(
            second,
            transfer,
            terms.point.overhead_ms as int,
            terms.cost.graded_acq_ms as int,
        ));
        assert(attempt.media_ms == first + second);
    }
}

/// An attempt expires exactly where its next object would land past the budget. It has then spent
/// the whole budget and no more, the control plane first, and counts no object that had not
/// landed. Without a budget none expires.
pub proof fn law_attempt_expires_at_its_budget<C: Controller>(
    s: C::State,
    proposal: Proposal,
    terms: Terms,
    active: ObservedHlsVariant,
    transfer: int,
    control: int,
    first: int,
    second: int,
)
    requires
        plain_terms(terms, transfer),
        control >= 0 && control >= terms.cost.control_plane_ms && (control == 0 || control
            == terms.cost.control_plane_ms),
        object_takes(
            first,
            transfer,
            terms.point.overhead_ms as int,
            terms.cost.warmup_acq_ms as int,
        ),
        object_takes(
            second,
            transfer,
            terms.point.overhead_ms as int,
            terms.cost.graded_acq_ms as int,
        ),
    ensures
        ({
            let attempt = attempt_of::<C>(s, proposal, terms, active);
            match terms.budget_ms {
                None => !attempt.expired,
                Some(budget) => {
                    let most = if budget < 0 {
                        0
                    } else {
                        budget as int
                    };
                    &&& control + first > most <==> attempt.staged_objects == 0
                    &&& attempt.expired && attempt.staged_objects == 1 ==> control + first
                        + second > most
                    &&& attempt.staged_objects == 0 ==> attempt.expired
                    &&& attempt.staged_objects == 2 ==> control + first + second <= most
                        && !attempt.expired
                    &&& attempt.expired ==> attempt.spent_ms == most && attempt.control_ms
                        + attempt.media_ms == most && !attempt.commits && (attempt.control_ms
                        == control || attempt.media_ms == 0 && control >= most)
                },
            }
        }),
        ({
            let attempt = attempt_of::<C>(s, proposal, terms, active);
            &&& !attempt.expired && attempt.staged_objects == 1 ==> attempt.spent_ms == control
                + first
            &&& !attempt.expired && attempt.staged_objects == 2 ==> attempt.spent_ms == control
                + first + second
        }),
{
    lemma_terms(terms, transfer);
}

/// What the policy is told of the last object that landed: its bytes, its transfer, what it took,
/// and the reserve that is left of the old one with every private object, less all that was spent.
/// It is told of an object exactly where one landed.
pub proof fn law_attempt_tells_what_is_left<C: Controller>(
    s: C::State,
    proposal: Proposal,
    terms: Terms,
    active: ObservedHlsVariant,
    transfer: int,
    control: int,
    first: int,
    second: int,
)
    requires
        plain_terms(terms, transfer),
        control >= 0 && control >= terms.cost.control_plane_ms && (control == 0 || control
            == terms.cost.control_plane_ms),
        object_takes(
            first,
            transfer,
            terms.point.overhead_ms as int,
            terms.cost.warmup_acq_ms as int,
        ),
        object_takes(
            second,
            transfer,
            terms.point.overhead_ms as int,
            terms.cost.graded_acq_ms as int,
        ),
    ensures
        ({
            let attempt = attempt_of::<C>(s, proposal, terms, active);
            let d = terms.plant.segment_ms;
            &&& attempt.staged_objects == 0 ==> attempt.final_sample is None
            &&& attempt.staged_objects == 1 ==> {
                &&& attempt.final_sample is Some
                &&& object_told(
                    attempt.final_sample->0,
                    terms,
                    transfer,
                    first,
                    terms.reserve_ms + d - control - first,
                )
            }
            &&& attempt.staged_objects == 2 ==> {
                &&& attempt.final_sample is Some
                &&& object_told(
                    attempt.final_sample->0,
                    terms,
                    transfer,
                    second,
                    terms.reserve_ms + d + d - control - first - second,
                )
            }
        }),
{
    lemma_terms(terms, transfer);
    assert(terms.segment_ms() * 1 == terms.plant.segment_ms);
    assert(terms.segment_ms() * 2 == terms.plant.segment_ms + terms.plant.segment_ms);
}

/// The policy grades the first object, as a boundary on the way up and as an ordinary one on the
/// way down. A second is fetched only where the first paid for the encoder's start. A candidate
/// commits exactly where the last object that was graded is ready, its raster fits the box of its
/// rung, and, on the way up, no axis of its response is worse than the active one's and some axis
/// is better.
pub proof fn law_candidate_commits_on_its_last_object<C: Controller>(
    s: C::State,
    proposal: Proposal,
    terms: Terms,
    active: ObservedHlsVariant,
    transfer: int,
    control: int,
    first: int,
    boundary: SegmentSample,
)
    requires
        plain_terms(terms, transfer),
        control >= 0 && control >= terms.cost.control_plane_ms && (control == 0 || control
            == terms.cost.control_plane_ms),
        object_takes(
            first,
            transfer,
            terms.point.overhead_ms as int,
            terms.cost.warmup_acq_ms as int,
        ),
        object_told(
            boundary,
            terms,
            transfer,
            first,
            terms.reserve_ms + terms.plant.segment_ms - control - first,
        ),
    ensures
        ({
            let attempt = attempt_of::<C>(s, proposal, terms, active);
            let point = terms.point;
            let declared_bps = (point.declared_kbps * 1_000) as u64;
            let first_verdict = if proposal.direction == Direction::Up {
                C::boundary_worth(s, proposal, boundary, declared_bps)
            } else {
                C::worth(s, proposal, boundary, declared_bps)
            };
            let last_verdict = if attempt.staged_objects == 2 {
                C::worth(s, proposal, attempt.final_sample->0, declared_bps)
            } else {
                first_verdict
            };
            let no_worse = declared_bps >= active.declared_bps && point.decoded_width
                >= active.width && point.decoded_height >= active.height;
            let better = declared_bps > active.declared_bps || point.decoded_width > active.width
                || point.decoded_height > active.height;
            &&& declared_bps == point.declared_kbps * 1_000
            &&& attempt.staged_objects == 1 && !attempt.expired ==> first_verdict
                != CandidateVerdict::SetupBearing
            &&& attempt.staged_objects == 2 ==> first_verdict == CandidateVerdict::SetupBearing
            &&& attempt.staged_objects == 1 && attempt.expired ==> first_verdict
                == CandidateVerdict::SetupBearing
            &&& attempt.staged_objects >= 1 ==> attempt.staged_objects == 2 || attempt.final_sample
                == Some(boundary)
            &&& attempt.commits <==> {
                &&& !attempt.expired
                &&& last_verdict == CandidateVerdict::Ready
                &&& point.decoded_width <= proposal.rung.max_width
                &&& point.decoded_height <= proposal.rung.max_height
                &&& proposal.direction == Direction::Up ==> no_worse && better
            }
        }),
{
    lemma_terms(terms, transfer);
    assert(terms.segment_ms() * 1 == terms.plant.segment_ms);
    assert(boundary == terms.boundary());
}

/// A narrower link never makes an attempt cheaper: with the same objects fetched it spends no
/// less, and where the wider link had no time for the first object, the narrower has none either.
pub proof fn law_narrower_link_is_no_cheaper<C: Controller>(
    s: C::State,
    proposal: Proposal,
    wide: Terms,
    narrow: Terms,
    active: ObservedHlsVariant,
    wide_transfer: int,
    narrow_transfer: int,
)
    requires
        narrow == (Terms { capacity_kbps: narrow.capacity_kbps, ..wide }),
        narrow.capacity_kbps <= wide.capacity_kbps,
        plain_terms(wide, wide_transfer),
        plain_terms(narrow, narrow_transfer),
    ensures
        ({
            let fast = attempt_of::<C>(s, proposal, wide, active);
            let slow = attempt_of::<C>(s, proposal, narrow, active);
            &&& fast.staged_objects == slow.staged_objects && !fast.expired && !slow.expired
                ==> slow.spent_ms >= fast.spent_ms && slow.media_ms >= fast.media_ms
            &&& fast.staged_objects == 0 ==> slow.staged_objects == 0
        }),
{
    lemma_terms(wide, wide_transfer);
    lemma_terms(narrow, narrow_transfer);
    let bits = wide.point.ts_kbps * wide.plant.segment_ms;
    assert(narrow_transfer >= wide_transfer) by (nonlinear_arith)
        requires
            0 < narrow.capacity_kbps <= wide.capacity_kbps,
            wide_transfer >= 0,
            narrow_transfer >= 0,
            wide_transfer * wide.capacity_kbps <= bits,
            bits < narrow_transfer * narrow.capacity_kbps + narrow.capacity_kbps,
    ;
}

/// A dearer leg never makes an attempt cheaper either.
pub proof fn law_dearer_leg_is_no_cheaper<C: Controller>(
    s: C::State,
    proposal: Proposal,
    terms: Terms,
    dearer: Terms,
    active: ObservedHlsVariant,
    transfer: int,
)
    requires
        dearer == (Terms { cost: dearer.cost, ..terms }),
        plain_terms(terms, transfer),
        plain_terms(dearer, transfer),
        terms.cost.control_plane_ms <= dearer.cost.control_plane_ms,
        terms.cost.warmup_acq_ms <= dearer.cost.warmup_acq_ms,
        terms.cost.graded_acq_ms <= dearer.cost.graded_acq_ms,
    ensures
        ({
            let cheap = attempt_of::<C>(s, proposal, terms, active);
            let dear = attempt_of::<C>(s, proposal, dearer, active);
            cheap.staged_objects == dear.staged_objects && !cheap.expired && !dear.expired
                ==> dear.spent_ms >= cheap.spent_ms
        }),
{
    lemma_terms(terms, transfer);
    lemma_terms(dearer, transfer);
}

/// A candidate's segment of less than a millisecond counts as one of a millisecond.
pub proof fn law_empty_segment_counts_as_a_millisecond<C: Controller>(
    s: C::State,
    proposal: Proposal,
    terms: Terms,
    active: ObservedHlsVariant,
)
    requires
        terms.plant.segment_ms <= 1,
    ensures
        attempt_of::<C>(s, proposal, terms, active) == ({
            let plant = Plant { segment_ms: 1, ..terms.plant };
            attempt_of::<C>(s, proposal, Terms { plant, ..terms }, active)
        }),
{
    let plant = Plant { segment_ms: 1, ..terms.plant };
    let other = Terms { plant, ..terms };
    assert(terms.segment_ms() == other.segment_ms());
}

/// An upward proposal is armed with exactly the budget that the policy grants out of the reserve,
/// and stops the run where it grants none or takes it back. A downward one needs no budget, and
/// tells the policy nothing.
pub proof fn law_only_an_upward_proposal_is_budgeted<C: Controller>(
    s: C::State,
    proposal: Proposal,
    buf: int,
)
    requires
        i64::MIN <= buf <= i64::MAX,
    ensures
        proposal.direction == Direction::Down ==> arming_of::<C>(s, proposal, buf)
            == (Arming::<C::State>::Armed { state: s, budget_ms: None }),
        proposal.direction == Direction::Up ==> match arming_of::<C>(s, proposal, buf) {
            Arming::Armed { state, budget_ms } => {
                &&& budget_ms is Some
                &&& budget_ms == C::budget(s, buf as i64)
                &&& C::after_arming(s, proposal, budget_ms->0) == (state, true)
            },
            Arming::Stops { state, failure } => {
                let kbps = proposal.rung.kbps;
                ||| C::budget(s, buf as i64) is None && state == s && failure
                    == (Failure::NoReserve { kbps, reserve_ms: buf as i64 })
                ||| C::budget(s, buf as i64) is Some && C::after_arming(
                    s,
                    proposal,
                    C::budget(s, buf as i64)->0,
                ) == (state, false) && failure == (Failure::LostFrontier { kbps })
            },
        },
{
}

} // verus!
