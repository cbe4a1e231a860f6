//! What one segment does to the clock and to the reserve, and what the policy hears of it.
//!
//! A quotient of bits and a rate appears here as the whole number of milliseconds that fits: `ms`
//! with `ms * kbps <= bits < ms * kbps + kbps`.
use vstd::prelude::*;

use crate::abr::calibration::{Calibration, CALIBRATED};
use crate::abr::plant::{capacity_at, horizon_of, kept_leg, OperatingPoint, Plant, TransactionModel};
use crate::abr::sim::{lowest_reserve, rate_told, segment_seen, segment_told, ObservedView};
use crate::abr::{Direction, ObservedHlsVariant, SegmentSample};
use crate::arith::{clamp_u64, lemma_bits_to_ms};

verus! {

/// Whether `whole` is what fits of `part` into `total`, rounded down.
pub open spec fn fits_times(whole: int, part: int, total: int) -> bool {
    part > 0 && whole >= 0 && whole * part <= total < whole * part + part
}

/// Whether a span of milliseconds is one that a playback can come to: under forty bits.
pub open spec fn is_span(ms: int) -> bool {
    -0x100_0000_0000 <= ms <= 0x100_0000_0000
}

// ---- the plant ------------------------------------------------------------------------------
/// The reserve that playback can reach is the smaller of the two lanes: each its lead, and as many
/// milliseconds as its queue holds at its own elementary rate.
pub proof fn law_ceiling_is_the_tighter_lane(
    plant: Plant,
    point: OperatingPoint,
    video_ms: int,
    audio_ms: int,
)
    requires
        plant.video_queue_bytes * 8 <= u64::MAX,
        plant.audio_queue_bytes * 8 <= u64::MAX,
        fits_times(video_ms, point.video_es_kbps as int, plant.video_queue_bytes * 8),
        fits_times(audio_ms, point.audio_es_kbps as int, plant.audio_queue_bytes * 8),
        video_ms <= i64::MAX,
        audio_ms <= i64::MAX,
        plant.video_lead_ms + video_ms <= i64::MAX,
        plant.audio_lead_ms + audio_ms <= i64::MAX,
    ensures
        plant.ceiling(point) <= plant.video_lead_ms + video_ms,
        plant.ceiling(point) <= plant.audio_lead_ms + audio_ms,
        plant.ceiling(point) == plant.video_lead_ms + video_ms || plant.ceiling(point)
            == plant.audio_lead_ms + audio_ms,
{
    lemma_bits_to_ms(plant.video_queue_bytes * 8, point.video_es_kbps as int, video_ms);
    lemma_bits_to_ms(plant.audio_queue_bytes * 8, point.audio_es_kbps as int, audio_ms);
}

/// A rate of nothing counts as one, in either lane, and the transport rate moves no ceiling.
pub proof fn law_ceiling_goes_by_elementary_rates(
    plant: Plant,
    point: OperatingPoint,
    other: OperatingPoint,
)
    requires
        other.video_es_kbps == point.video_es_kbps || other.video_es_kbps == 0
            && point.video_es_kbps == 1,
        other.audio_es_kbps == point.audio_es_kbps || other.audio_es_kbps == 0
            && point.audio_es_kbps == 1,
    ensures
        plant.ceiling(other) == plant.ceiling(point),
{
}

/// A queue larger than the machine can count is as large as it can count, and no lane reaches
/// further than the machine's last instant.
pub proof fn law_ceiling_stays_in_the_machine(plant: Plant, point: OperatingPoint)
    ensures
        i64::MIN <= plant.ceiling(point) <= i64::MAX,
        plant.video_lead_ms >= 0 && plant.audio_lead_ms >= 0 ==> plant.ceiling(point) >= 0,
{
    let video = clamp_u64(plant.video_queue_bytes * 8);
    let audio = clamp_u64(plant.audio_queue_bytes * 8);
    assert(video / 1 >= 0 && audio / 1 >= 0);
    assert(forall|a: int, b: int| a >= 0 && b >= 1 ==> #[trigger] (a / b) >= 0) by {
        assert forall|a: int, b: int| a >= 0 && b >= 1 implies #[trigger] (a / b) >= 0 by {
            assert(a / b >= 0) by (nonlinear_arith)
                requires
                    a >= 0,
                    b >= 1,
            ;
        }
    }
}

/// The last leg ends the schedule, and a schedule without legs has ended.
pub proof fn law_horizon_is_the_last_end(legs: Seq<(i64, u32)>, until: i64, kbps: u32)
    ensures
        horizon_of(legs.push((until, kbps))) == until,
        horizon_of(Seq::<(i64, u32)>::empty()) == 0,
        capacity_at(Seq::<(i64, u32)>::empty(), until as int) == 1,
{
}

/// A schedule keeps every leg as it is, but for a capacity of nothing: that counts as one.
pub proof fn law_leg_is_kept(until: i64, kbps: u32)
    ensures
        kept_leg((until, kbps)).0 == until,
        kbps >= 1 ==> kept_leg((until, kbps)).1 == kbps,
        kept_leg((until, 0)).1 == 1,
{
}

/// Each leg of a transaction has its own cost: changing one of them changes no other.
pub proof fn law_each_leg_has_its_own_cost(tx: TransactionModel, direction: Direction, commit: bool)
    ensures
        tx.cost(direction, commit) == (if commit {
            if direction == Direction::Up {
                tx.up_commit
            } else {
                tx.down_commit
            }
        } else if direction == Direction::Up {
            tx.up_reject
        } else {
            tx.down_reject
        }),
{
}

// ---- the census -----------------------------------------------------------------------------
/// The measured table by its columns, the rungs in rising order: what the network carried, what
/// the audio lane held, the overhead of an acquisition, the raster, and where the reserve settled.
/// The video lane held the rest of the stream, less four parts of container in every hundred and
/// four.
pub proof fn law_measured_columns(i: int)
    requires
        0 <= i < 7,
    ensures
        ({
            let rung = seq![320u32, 720, 2_000, 4_000, 10_000, 16_000, 20_000][i];
            let ts = seq![376u32, 806, 2_221, 4_386, 10_881, 16_798, 20_706][i];
            let audio = seq![98u32, 131, 159, 159, 192, 192, 192][i];
            let overhead = seq![21i64, 24, 51, 84, 171, 264, 323][i];
            let width = seq![426u16, 854, 1_280, 1_280, 1_920, 1_920, 1_920][i];
            let height = seq![240u16, 480, 720, 720, 1_080, 1_080, 1_080][i];
            let settled = seq![88_293i64, 67_543, 37_210, 18_418, 8_168, 5_793, 4_960][i];
            &&& CALIBRATED@[i] == rung
            &&& Calibration::census(rung) == Some(settled)
            &&& Calibration::measured(rung) matches Some(point) && {
                &&& point.ts_kbps == ts
                &&& point.audio_es_kbps == audio
                &&& point.overhead_ms == overhead
                &&& point.declared_kbps == rung
                &&& point.decoded_width == width
                &&& point.decoded_height == height
                &&& 104 * point.video_es_kbps <= 100 * (ts - audio) < 104 * point.video_es_kbps
                    + 104
            }
        }),
{
    let listed = CALIBRATED@;
    assert(listed[0] == 320 && listed[1] == 720 && listed[2] == 2_000 && listed[3] == 4_000
        && listed[4] == 10_000 && listed[5] == 16_000 && listed[6] == 20_000);
}

// ---- one segment ----------------------------------------------------------------------------
/// A segment is asked for at the capacity of that instant, and takes what its transport stream
/// takes over it and the overhead, but never less than a millisecond. It carries its rung.
pub proof fn law_segment_takes_its_transfer_and_overhead(
    plant: Plant,
    legs: Seq<(i64, u32)>,
    point: OperatingPoint,
    now: int,
    buf: int,
    rung_kbps: u32,
    transfer: int,
)
    requires
        plant.segment_ms >= 0,
        point.ts_kbps * plant.segment_ms <= u64::MAX,
        fits_times(
            transfer,
            capacity_at(legs, now) as int,
            point.ts_kbps * plant.segment_ms,
        ),
        transfer <= i64::MAX,
        i64::MIN <= transfer + point.overhead_ms <= i64::MAX,
    ensures
        ({
            let seen = segment_seen(plant, legs, point, now, buf, rung_kbps);
            &&& seen.capacity_kbps == capacity_at(legs, now)
            &&& seen.rung_kbps == rung_kbps
            &&& seen.ts_kbps == point.ts_kbps
            &&& seen.b_max_ms == plant.ceiling(point)
            &&& seen.acquire_ms >= 1
            &&& transfer + point.overhead_ms >= 1 ==> seen.acquire_ms == transfer
                + point.overhead_ms
            &&& transfer + point.overhead_ms < 1 ==> seen.acquire_ms == 1
        }),
{
    lemma_bits_to_ms(
        point.ts_kbps * plant.segment_ms,
        capacity_at(legs, now) as int,
        transfer,
    );
}

/// The wall time is the acquisition, unless the queues are full: then it is just long enough for
/// the segment to fit under the ceiling.
pub proof fn law_full_queues_stretch_the_wall(
    plant: Plant,
    legs: Seq<(i64, u32)>,
    point: OperatingPoint,
    now: int,
    buf: int,
    rung_kbps: u32,
)
    requires
        i64::MIN <= buf + plant.segment_ms <= i64::MAX,
        i64::MIN <= buf + plant.segment_ms - plant.ceiling(point) <= i64::MAX,
    ensures
        ({
            let seen = segment_seen(plant, legs, point, now, buf, rung_kbps);
            &&& seen.at_ms == now + seen.wall_ms
            &&& seen.wall_ms >= seen.acquire_ms
            &&& buf + plant.segment_ms - seen.wall_ms <= plant.ceiling(point)
            &&& seen.wall_ms > seen.acquire_ms ==> buf + plant.segment_ms - seen.wall_ms
                == plant.ceiling(point)
        }),
{
}

/// Media is conserved: a segment adds its length to the reserve, and the wall time takes from it
/// what it does not stall for. Only the ceiling can keep some of it out, and only where the
/// reserve had run dry.
pub proof fn law_segment_conserves_media(
    plant: Plant,
    legs: Seq<(i64, u32)>,
    point: OperatingPoint,
    now: int,
    buf: int,
    rung_kbps: u32,
)
    ensures
        ({
            let seen = segment_seen(plant, legs, point, now, buf, rung_kbps);
            let left = buf - (seen.wall_ms - seen.stall_ms);
            &&& seen.stall_ms >= 0
            &&& left >= 0
            &&& seen.stall_ms > 0 ==> left == 0
            &&& seen.buf_ms <= left + plant.segment_ms
            &&& seen.buf_ms <= plant.ceiling(point)
            &&& seen.buf_ms == left + plant.segment_ms || seen.buf_ms == plant.ceiling(point)
        }),
{
}

/// The policy hears of the reserve that the plant saw, in both lanes, and of a playback at zero.
pub proof fn law_policy_hears_of_the_plants_reserve(
    plant: Plant,
    legs: Seq<(i64, u32)>,
    point: OperatingPoint,
    now: int,
    buf: int,
    rung_kbps: u32,
)
    requires
        i64::MIN <= segment_seen(plant, legs, point, now, buf, rung_kbps).buf_ms <= i64::MAX,
    ensures
        ({
            let seen = segment_seen(plant, legs, point, now, buf, rung_kbps);
            let told = segment_told(plant, legs, point, now, buf);
            &&& told.buffer.video_tail.0 == seen.buf_ms
            &&& told.buffer.audio_tail matches Some(tail) && tail.0 == seen.buf_ms
            &&& told.buffer.playback.0 == 0
            &&& told.buffer.audio_expected
        }),
{
}

/// The policy hears of the segment's own bytes, of its transfer as the active time, and of its
/// acquisition as the total: never of the wall.
pub proof fn law_policy_hears_of_transfer_and_acquisition(
    plant: Plant,
    legs: Seq<(i64, u32)>,
    point: OperatingPoint,
    now: int,
    buf: int,
    rung_kbps: u32,
    transfer: int,
)
    requires
        0 < plant.segment_ms <= u32::MAX,
        fits_times(
            transfer,
            capacity_at(legs, now) as int,
            point.ts_kbps * plant.segment_ms,
        ),
        transfer * 1_000 <= u64::MAX,
        segment_seen(plant, legs, point, now, buf, rung_kbps).acquire_ms * 1_000 <= u64::MAX,
    ensures
        ({
            let seen = segment_seen(plant, legs, point, now, buf, rung_kbps);
            let told = segment_told(plant, legs, point, now, buf);
            let bits = point.ts_kbps * plant.segment_ms;
            &&& bits >= 8 ==> told.bytes * 8 <= bits < told.bytes * 8 + 8
            &&& bits < 8 ==> told.bytes == 1
            &&& transfer >= 1 ==> told.active_fetch_us == transfer * 1_000
            &&& transfer == 0 ==> told.active_fetch_us == 1_000
            &&& told.total_fetch_us == seen.acquire_ms * 1_000
            &&& told.media_ms == plant.segment_ms
        }),
{
    assert(point.ts_kbps * plant.segment_ms <= u64::MAX) by (nonlinear_arith)
        requires
            0 <= point.ts_kbps <= 0xffff_ffff,
            0 < plant.segment_ms <= 0xffff_ffff,
    ;
    lemma_bits_to_ms(
        point.ts_kbps * plant.segment_ms,
        capacity_at(legs, now) as int,
        transfer,
    );
}

/// A segment of no or of negative length carries nothing: it takes its overhead alone, and is told
/// as one byte in a millisecond of transfer. A length that no sample can carry is told as two
/// seconds.
pub proof fn law_policy_hears_something_of_every_segment(
    plant: Plant,
    legs: Seq<(i64, u32)>,
    point: OperatingPoint,
    now: int,
    buf: int,
)
    ensures
        ({
            let told = segment_told(plant, legs, point, now, buf);
            let seen = segment_seen(plant, legs, point, now, buf, 0);
            &&& plant.segment_ms <= 0 && point.overhead_ms >= 1 ==> seen.acquire_ms
                == point.overhead_ms
            &&& plant.segment_ms <= 0 && point.overhead_ms < 1 ==> seen.acquire_ms == 1
            &&& plant.segment_ms <= 0 ==> told.bytes == 1 && told.active_fetch_us == 1_000
            &&& plant.segment_ms < 0 || plant.segment_ms > u32::MAX ==> told.media_ms == 2_000
            &&& 0 <= plant.segment_ms <= u32::MAX ==> told.media_ms == plant.segment_ms
        }),
{
    if plant.segment_ms <= 0 {
        assert(point.ts_kbps * 0 == 0);
        let capacity = capacity_at(legs, now) as int;
        lemma_bits_to_ms(
            0,
            if capacity < 1 {
                1
            } else {
                capacity
            },
            0,
        );
    }
}

// ---- what a sample and a response say -------------------------------------------------------
/// The transfer rate of a sample is what fits of its bits, a thousandth of a second at a time,
/// into its active time.
pub proof fn law_rate_of_a_sample(sample: SegmentSample, kbps: int)
    requires
        fits_times(kbps, sample.active_fetch_us as int, sample.bytes * 8_000),
    ensures
        sample.wire_rate_kbps() == kbps,
        kbps <= u64::MAX ==> rate_told(sample) == kbps,
        kbps > u64::MAX ==> rate_told(sample) == u64::MAX,
{
    lemma_quotient(kbps, sample.active_fetch_us as int, sample.bytes * 8_000);
}

/// A sample is a measurement, and a response physical, exactly where no axis of it is nothing.
pub proof fn law_nothing_is_no_measurement(
    bytes: u64,
    active_us: u64,
    total_us: u64,
    media_ms: u32,
    width: i32,
    height: i32,
)
    ensures
        SegmentSample::is_measurement(bytes, active_us, total_us, media_ms) <==> !(bytes == 0
            || active_us == 0 || total_us == 0 || media_ms == 0),
        ObservedHlsVariant::is_physical(bytes, width, height) <==> !(bytes == 0 || width <= 0
            || height <= 0),
{
}

/// A time of nothing counts as one.
pub proof fn law_no_time_counts_as_one(sample: SegmentSample)
    ensures
        sample.active_fetch_us == 0 ==> sample.wire_rate_kbps() == sample.bytes * 8_000,
        sample.media_ms == 0 ==> sample.production_pm() == sample.total_fetch_us,
{
    lemma_quotient(sample.bytes * 8_000, 1, sample.bytes * 8_000);
    lemma_quotient(sample.total_fetch_us as int, 1, sample.total_fetch_us as int);
}

/// The production ratio of a sample is its acquisition over its length, in thousandths.
pub proof fn law_production_of_a_sample(sample: SegmentSample, ratio: int)
    requires
        fits_times(ratio, sample.media_ms as int, sample.total_fetch_us as int),
    ensures
        sample.production_pm() == ratio,
{
    lemma_quotient(ratio, sample.media_ms as int, sample.total_fetch_us as int);
}

proof fn lemma_quotient(whole: int, part: int, total: int)
    requires
        fits_times(whole, part, total),
    ensures
        total / part == whole,
{
    vstd::arithmetic::div_mod::lemma_fundamental_div_mod_converse(
        total,
        part,
        whole,
        total - whole * part,
    );
}

/// Dominance is a strict order on responses, and rises with every axis: a response that is better
/// on one axis and the same on the others dominates, and one that is worse on any does not.
pub proof fn law_dominance_is_a_strict_order(
    a: ObservedHlsVariant,
    b: ObservedHlsVariant,
    c: ObservedHlsVariant,
)
    ensures
        !a.dominates(a),
        a.dominates(b) ==> !b.dominates(a),
        a.dominates(b) && b.dominates(c) ==> a.dominates(c),
        a.declared_bps < b.declared_bps || a.width < b.width || a.height < b.height
            ==> !a.dominates(b),
        a.declared_bps > b.declared_bps && a.width >= b.width && a.height >= b.height
            ==> a.dominates(b),
        a.declared_bps >= b.declared_bps && a.width > b.width && a.height >= b.height
            ==> a.dominates(b),
        a.declared_bps >= b.declared_bps && a.width >= b.width && a.height > b.height
            ==> a.dominates(b),
{
}

/// The response of a point is its declared rate in bits per second and its decoded raster.
pub proof fn law_response_is_the_points_own(point: OperatingPoint)
    ensures
        point.response().declared_bps == point.declared_kbps * 1_000,
        point.response().width == point.decoded_width,
        point.response().height == point.decoded_height,
{
}

/// The lowest reserve of a run is that of one of its segments, and no segment left less.
pub proof fn law_lowest_reserve_is_the_least(samples: Seq<ObservedView>)
    ensures
        forall|i: int|
            0 <= i < samples.len() ==> lowest_reserve(samples) <= (#[trigger] samples[i]).buf_ms,
        samples.len() > 0 ==> exists|i: int|
            0 <= i < samples.len() && lowest_reserve(samples) == (#[trigger] samples[i]).buf_ms,
        samples.len() == 0 ==> lowest_reserve(samples) == 0,
    decreases samples.len(),
{
    if samples.len() > 1 {
        let before = samples.drop_last();
        law_lowest_reserve_is_the_least(before);
        assert(forall|i: int| 0 <= i < before.len() ==> before[i] == samples[i]);
        assert(samples.last() == samples[samples.len() - 1]);
        let i = choose|i: int|
            0 <= i < before.len() && lowest_reserve(before) == (#[trigger] before[i]).buf_ms;
        assert(samples[i] == before[i]);
    } else if samples.len() == 1 {
        assert(samples[0].buf_ms == lowest_reserve(samples));
    }
}

} // verus!
