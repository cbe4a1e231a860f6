//! The plant, its calibration and the closed loop.
use plex_player::abr::calibration::{Calibration, CALIBRATED};
use plex_player::abr::plant::{
    OperatingPoint, Plant, Trace, TransactionCost, TransactionModel, AUDIO_LEAD_MS,
    AUDIO_QUEUE_BYTES, CENSUS_VIDEO_QUEUE_BYTES, VIDEO_LEAD_MS, VIDEO_QUEUE_BYTES,
};
use plex_player::abr::replay::Replay;
use plex_player::abr::sim::{can_run, candidate_attempt, run, step, Failure, Reached, Report};
use plex_player::abr::{
    BufferSnapshot, CandidateVerdict, Decision, Direction, ObservedHlsVariant, Proposal, Rung,
    SegmentSample,
};

const P480: Rung = Rung {
    kbps: 720,
    max_width: 854,
    max_height: 480,
};
const P720: Rung = Rung {
    kbps: 4_000,
    max_width: 1_280,
    max_height: 720,
};
const P1080_M14: Rung = Rung {
    kbps: 14_000,
    max_width: 1_920,
    max_height: 1_080,
};
const P240: Rung = Rung {
    kbps: 320,
    max_width: 426,
    max_height: 240,
};

fn p720() -> OperatingPoint {
    Calibration::point(720).expect("720 is calibrated")
}

fn p4000() -> OperatingPoint {
    Calibration::point(4_000).expect("4000 is calibrated")
}

fn p20000() -> OperatingPoint {
    Calibration::point(20_000).expect("20000 is calibrated")
}

/// A schedule whose legs end at these seconds.
fn trace(legs: &[(f64, u32)]) -> Trace {
    let ms: Vec<(i64, u32)> = legs
        .iter()
        .map(|&(s, kbps)| ((s * 1000.0) as i64, kbps))
        .collect();
    Trace::new(&ms)
}

fn up(rung: Rung) -> Proposal {
    Proposal {
        rung,
        direction: Direction::Up,
    }
}

fn down(rung: Rung) -> Proposal {
    Proposal {
        rung,
        direction: Direction::Down,
    }
}

fn cost(control_plane_ms: i64, warmup_acq_ms: i64, graded_acq_ms: i64) -> TransactionCost {
    TransactionCost {
        control_plane_ms,
        warmup_acq_ms,
        graded_acq_ms,
    }
}

fn every_leg(leg: TransactionCost) -> TransactionModel {
    TransactionModel {
        up_commit: Some(leg),
        up_reject: Some(leg),
        down_commit: Some(leg),
        down_reject: Some(leg),
    }
}

/// Fills the reserve over a few segments and then proposes one rung up.
fn climbs_to(rung: Rung) -> Replay {
    Replay::new(
        P480,
        vec![
            Decision::Hold,
            Decision::Hold,
            Decision::Hold,
            Decision::Prime(up(rung)),
        ],
        Some(10_000),
    )
}

/// Proposes at the first segment.
fn proposes(proposal: Proposal) -> Replay {
    Replay::new(P480, vec![Decision::Prime(proposal)], Some(10_000))
}

// ---- the plant ------------------------------------------------------------------------------

#[test]
fn the_controller_is_told_acquisition_time_and_the_plant_advances_by_wall_time() {
    let plant = Plant::default();
    let point = p20000();
    let trace = trace(&[(600.0, 103_000)]);
    let mut now = 0;
    let mut buf = plant.b_max_ms(&point);
    let before = now;
    let (observed, sample) = step(&plant, &trace, &point, &mut now, &mut buf, 20_000);

    assert_eq!(
        observed.wall_ms, plant.segment_ms,
        "settled: wall time is one segment"
    );
    assert!(
        observed.acquire_ms < observed.wall_ms,
        "acquisition {}ms must be strictly under wall {}ms in a backpressured state",
        observed.acquire_ms,
        observed.wall_ms
    );
    assert_eq!(
        now - before,
        observed.wall_ms,
        "the plant advances by WALL time"
    );
    let prod = sample.production_ratio_pm();
    assert_eq!(prod as i64, observed.acquire_ms * 1_000 / plant.segment_ms);
    assert!(
        prod < 1_000,
        "wall time would read 1000pm, got {prod}"
    );
    assert!(
        (322..=384).contains(&prod),
        "expected the device band 322-384, got {prod}pm"
    );
}

#[test]
fn the_calibration_reproduces_the_device_census() {
    let plant = Plant {
        video_queue_bytes: CENSUS_VIDEO_QUEUE_BYTES,
        ..Plant::default()
    };
    let mut checked = 0;
    for rung in CALIBRATED {
        let point = Calibration::point(rung).expect("CALIBRATED lists it");
        let observed = Calibration::census_buf_ms(rung).expect("censused with it");
        let pred = plant.b_max_ms(&point);
        let err = (pred - observed).abs() * 100 / observed;
        assert!(
            err <= 5,
            "rung {rung}: predicted {pred}ms vs measured {observed}ms ({err}% off)"
        );
        checked += 1;
    }
    assert_eq!(
        checked,
        CALIBRATED.len(),
        "every calibrated rung is graded, never a subset"
    );
}

#[test]
fn the_binding_lane_crosses_between_720_and_2000() {
    let plant = Plant::default();
    let binds_audio = |rung: u32| {
        let p = Calibration::point(rung).expect("calibrated");
        let video = plant.video_lead_ms
            + (plant.video_queue_bytes * 8 / u64::from(p.video_es_kbps.max(1))) as i64;
        let audio = plant.audio_lead_ms
            + (plant.audio_queue_bytes * 8 / u64::from(p.audio_es_kbps.max(1))) as i64;
        audio < video
    };
    assert!(
        binds_audio(320),
        "at the floor the 1 MiB audio queue is the ceiling"
    );
    assert!(binds_audio(720));
    for rung in [2_000, 4_000, 10_000, 16_000, 20_000] {
        assert!(!binds_audio(rung), "rung {rung} must be video-bound");
    }
}

#[test]
fn the_lane_ceilings_come_from_elementary_rates() {
    let plant = Plant::default();
    let lane = |lead: i64, bytes: u64, kbps: u32| lead + (bytes * 8 / u64::from(kbps)) as i64;
    let p = p20000();
    assert_eq!(
        plant.b_max_ms(&p),
        lane(VIDEO_LEAD_MS, VIDEO_QUEUE_BYTES, p.video_es_kbps).min(lane(
            AUDIO_LEAD_MS,
            AUDIO_QUEUE_BYTES,
            p.audio_es_kbps
        ))
    );
    let p = p720();
    assert_eq!(
        plant.b_max_ms(&p),
        lane(VIDEO_LEAD_MS, VIDEO_QUEUE_BYTES, p.video_es_kbps).min(lane(
            AUDIO_LEAD_MS,
            AUDIO_QUEUE_BYTES,
            p.audio_es_kbps
        )),
        "the audio lane does not move with the video cap"
    );
    let video_bound = OperatingPoint {
        video_es_kbps: 200_000,
        ..p720()
    };
    assert_eq!(
        plant.b_max_ms(&video_bound),
        VIDEO_LEAD_MS + (VIDEO_QUEUE_BYTES * 8 / 200_000) as i64
    );
}

#[test]
fn the_plant_constants_still_match_the_pipeline() {
    // The pipeline's queue caps and feed leads, by value.
    let (video, audio): (usize, usize) = (10 * 1024 * 1024, 1024 * 1024);
    assert_eq!(video as u64, VIDEO_QUEUE_BYTES);
    assert_eq!(audio as u64, AUDIO_QUEUE_BYTES);
    let (video_lead, audio_lead): (i64, i64) = (1_600, 1_600 + 2_000);
    assert_eq!(video_lead, VIDEO_LEAD_MS);
    assert_eq!(audio_lead, AUDIO_LEAD_MS);
}

#[test]
fn the_ceilings_of_both_ends_of_the_ladder() {
    let plant = Plant::default();
    assert_eq!(p20000().video_es_kbps, 19_725);
    assert_eq!(plant.b_max_ms(&p20000()), 5_852);
    assert_eq!(p720().video_es_kbps, 649);
    assert_eq!(plant.b_max_ms(&p720()), 67_635);
}

#[test]
fn the_plant_reproduces_the_drain_identity() {
    let point = OperatingPoint {
        overhead_ms: 0,
        ..p4000()
    };
    let plant = Plant::default();
    for &(capacity, want) in &[(20_000u32, 1i8), (point.ts_kbps, 0), (1_500, -1)] {
        let trace = trace(&[(600.0, capacity)]);
        let (mut now, mut buf) = (0, 12_000);
        let before = buf;
        let (_, _) = step(&plant, &trace, &point, &mut now, &mut buf, 4_000);
        let fetch = i64::from(point.ts_kbps) * plant.segment_ms / i64::from(capacity);
        assert_eq!((buf - before).signum() as i8, want, "C={capacity}");
        assert_eq!(
            buf - before,
            plant.segment_ms - fetch.max(1),
            "C={capacity}"
        );
    }
}

#[test]
fn the_plant_survives_the_magnitudes_a_lan_actually_produces() {
    let plant = Plant::default();
    for &es in &[1u32, 320, 22_000, 865_000_000, u32::MAX] {
        let point = OperatingPoint {
            ts_kbps: es,
            video_es_kbps: es,
            audio_es_kbps: es.max(1),
            overhead_ms: 0,
            ..p720()
        };
        assert!(plant.b_max_ms(&point) > 0, "es={es}");
        let trace = trace(&[(600.0, u32::MAX)]);
        let (mut now, mut buf) = (0, 0);
        let (o, _) = step(&plant, &trace, &point, &mut now, &mut buf, 320);
        assert!(o.buf_ms >= 0 && now > 0);
    }
}

#[test]
fn a_queue_beyond_the_machine_saturates_its_ceiling() {
    let plant = Plant {
        video_queue_bytes: u64::MAX,
        audio_queue_bytes: u64::MAX,
        ..Plant::default()
    };
    let point = OperatingPoint {
        video_es_kbps: 0,
        audio_es_kbps: 0,
        ..p720()
    };
    assert_eq!(plant.b_max_ms(&point), i64::MAX);
}

#[test]
fn a_step_in_exact_milliseconds() {
    let plant = Plant::default();
    let trace = trace(&[(60.0, 60_000)]);
    let (mut now, mut buf) = (0, 0);
    let (o, sample) = step(&plant, &trace, &p720(), &mut now, &mut buf, 720);
    // 806 * 2000 / 60000 = 26 of transfer and 24 of overhead.
    assert_eq!((o.acquire_ms, o.wall_ms, o.stall_ms), (50, 50, 50));
    assert_eq!((o.at_ms, o.buf_ms, o.b_max_ms), (50, 2_000, 67_635));
    assert_eq!((o.rung_kbps, o.ts_kbps, o.capacity_kbps), (720, 806, 60_000));
    assert_eq!((now, buf), (50, 2_000));
    assert_eq!(sample.bytes, 201_500);
    assert_eq!(sample.active_fetch_us, 26_000);
    assert_eq!(sample.total_fetch_us, 50_000);
    assert_eq!(sample.media_ms, 2_000);
    assert_eq!(sample.buffer, BufferSnapshot::filled_to(2_000));
    assert_eq!(sample.network_kbps(), 62_000);
    assert_eq!(sample.production_ratio_pm(), 25);
}

// ---- what the policy speaks of --------------------------------------------------------------

#[test]
fn a_segment_of_nothing_is_no_measurement() {
    let level = BufferSnapshot::filled_to(0);
    assert!(SegmentSample::new(1, 1, 1, 1, level).is_some());
    assert!(SegmentSample::new(0, 1, 1, 1, level).is_none());
    assert!(SegmentSample::new(1, 0, 1, 1, level).is_none());
    assert!(SegmentSample::new(1, 1, 0, 1, level).is_none());
    assert!(SegmentSample::new(1, 1, 1, 0, level).is_none());
    let fast = SegmentSample::new(u64::MAX, 1, 1, 1, level).expect("a measurement");
    assert_eq!(fast.network_kbps(), u64::MAX);
}

#[test]
fn a_response_dominates_only_where_no_axis_is_lower() {
    let base = ObservedHlsVariant::new(2_000_000, 1_280, 720).expect("physical");
    let richer = ObservedHlsVariant::new(4_000_000, 1_280, 720).expect("physical");
    let smaller = ObservedHlsVariant::new(4_000_000, 854, 480).expect("physical");
    assert!(richer.strictly_dominates(base));
    assert!(!base.strictly_dominates(richer));
    assert!(!base.strictly_dominates(base));
    assert!(!smaller.strictly_dominates(base));
    assert!(ObservedHlsVariant::new(0, 1_280, 720).is_none());
    assert!(ObservedHlsVariant::new(1, 0, 720).is_none());
    assert!(ObservedHlsVariant::new(1, 1_280, -1).is_none());
}

#[test]
fn a_calibrated_point_carries_its_response() {
    let variant = p4000().variant();
    assert_eq!(
        (variant.declared_bps, variant.width, variant.height),
        (4_000_000, 1_280, 720)
    );
}

#[test]
fn the_measured_legs() {
    let tx = TransactionModel::measured();
    assert_eq!(tx.leg(Direction::Up, true), Some(cost(6, 1_180, 1_276)));
    assert_eq!(tx.leg(Direction::Up, false), Some(cost(6, 1_442, 0)));
    assert_eq!(tx.leg(Direction::Down, true), Some(cost(6, 676, 0)));
    assert_eq!(tx.leg(Direction::Down, false), None);
    let none = TransactionModel::unmeasured();
    assert_eq!(none, TransactionModel::default());
    assert_eq!(none.leg(Direction::Up, true), None);
    assert_eq!(none.leg(Direction::Down, true), None);
}

// ---- schedules ------------------------------------------------------------------------------

#[test]
fn the_first_leg_whose_end_lies_ahead_holds() {
    let legs = Trace::new(&[(1_000, 5_000), (3_000, 0)]);
    assert_eq!(legs.capacity_kbps(-5), 5_000);
    assert_eq!(legs.capacity_kbps(999), 5_000);
    assert_eq!(legs.capacity_kbps(1_000), 1);
    assert_eq!(legs.capacity_kbps(9_000), 1);
    assert_eq!(legs.horizon_ms(), 3_000);
    let empty = Trace::new(&[]);
    assert_eq!(empty.capacity_kbps(0), 1);
    assert_eq!(empty.horizon_ms(), 0);
}

// ---- candidates -----------------------------------------------------------------------------

fn attempt_with(
    policy: &Replay,
    proposal: Proposal,
    cost: TransactionCost,
    budget_ms: Option<i64>,
) -> plex_player::abr::sim::CandidateAttempt {
    candidate_attempt(
        policy,
        proposal,
        &Plant::default(),
        p4000(),
        p720().variant(),
        60_000,
        5_000,
        cost,
        budget_ms,
    )
}

#[test]
fn a_candidate_that_outlasts_its_budget_expires() {
    let mut policy = proposes(up(P720));
    let early = attempt_with(&policy, up(P720), cost(300, 900, 700), Some(1_000));
    assert!(early.expired && !early.commits);
    assert_eq!(
        (early.spent_ms, early.control_ms, early.media_ms),
        (1_000, 300, 700)
    );
    assert_eq!((early.staged_objects, early.final_sample), (0, None));

    let broke = attempt_with(&policy, up(P720), cost(300, 900, 700), Some(-7));
    assert!(broke.expired);
    assert_eq!((broke.spent_ms, broke.control_ms, broke.media_ms), (0, 0, 0));

    policy.boundary = CandidateVerdict::SetupBearing;
    let late = attempt_with(&policy, up(P720), cost(300, 900, 700), Some(1_500));
    assert!(late.expired && !late.commits);
    assert_eq!(
        (late.spent_ms, late.control_ms, late.media_ms),
        (1_500, 300, 1_200)
    );
    assert_eq!(late.staged_objects, 1);
    assert!(late.final_sample.is_some());
}

#[test]
fn a_candidate_is_graded_by_its_last_object() {
    let mut policy = proposes(up(P720));
    let direct = attempt_with(&policy, up(P720), cost(300, 900, 700), Some(10_000));
    assert!(direct.commits && !direct.expired);
    assert_eq!(
        (direct.spent_ms, direct.control_ms, direct.media_ms),
        (1_200, 300, 900)
    );
    assert_eq!(direct.staged_objects, 1);
    let sample = direct.final_sample.expect("graded");
    // 4386 * 2000 bits at 60000, and a warm-up of 900.
    assert_eq!(sample.bytes, 1_096_500);
    assert_eq!(sample.active_fetch_us, 146_000);
    assert_eq!(sample.total_fetch_us, 900_000);
    // 5000 of reserve, one private segment, 1200 spent.
    assert_eq!(sample.buffer, BufferSnapshot::filled_to(5_800));

    policy.boundary = CandidateVerdict::SetupBearing;
    let setup = attempt_with(&policy, up(P720), cost(300, 900, 700), Some(10_000));
    assert!(setup.commits);
    assert_eq!(
        (setup.spent_ms, setup.control_ms, setup.media_ms),
        (1_900, 300, 1_600)
    );
    assert_eq!(setup.staged_objects, 2);
    let sample = setup.final_sample.expect("graded");
    assert_eq!(sample.total_fetch_us, 700_000);
    assert_eq!(sample.buffer, BufferSnapshot::filled_to(7_100));

    policy.ordinary = CandidateVerdict::Refused;
    let refused = attempt_with(&policy, up(P720), cost(300, 900, 700), Some(10_000));
    assert!(!refused.commits && !refused.expired);
    assert_eq!(refused.staged_objects, 2);
}

#[test]
fn a_candidate_must_fit_its_rung_and_improve_on_the_way_up() {
    let policy = proposes(up(P720));
    let small = Rung {
        max_width: 854,
        ..P720
    };
    assert!(!attempt_with(&policy, up(small), cost(0, 0, 0), None).commits);
    let flat = candidate_attempt(
        &policy,
        up(P720),
        &Plant::default(),
        p4000(),
        p4000().variant(),
        60_000,
        5_000,
        cost(0, 0, 0),
        None,
    );
    assert!(!flat.commits, "the same response is no improvement");
    let lower = candidate_attempt(
        &policy,
        down(P720),
        &Plant::default(),
        p4000(),
        p20000().variant(),
        60_000,
        5_000,
        cost(0, 0, 0),
        None,
    );
    assert!(lower.commits, "on the way down nothing has to improve");
    assert_eq!(lower.spent_ms, 230);
}

// ---- runs -----------------------------------------------------------------------------------

#[test]
fn an_uncalibrated_rung_stops_the_run_instead_of_being_invented() {
    assert!(
        Calibration::point(14_000).is_none(),
        "14000 was never measured"
    );
    let plant = Plant::default();
    let trace = trace(&[(30.0, 40_000)]);
    let mut c = Replay::new(P1080_M14, Vec::new(), None);
    let err = run(&plant, &trace, &mut c, &TransactionModel::unmeasured())
        .expect_err("an uncalibrated rung must not simulate");
    assert!(err.contains("UNCALIBRATED"), "{err}");
}

#[test]
fn an_unmeasured_transaction_leg_stops_the_run() {
    let plant = Plant::default();
    let trace = trace(&[(400.0, 60_000)]);
    let mut c = climbs_to(P720);
    let err = run(&plant, &trace, &mut c, &TransactionModel::unmeasured())
        .expect_err("an unmeasured transaction leg must not simulate");
    assert!(err.contains("UNMEASURED"), "{err}");
}

#[test]
fn the_loop_closes_and_is_deterministic_on_a_fully_specified_model() {
    let tx = every_leg(cost(300, 900, 700));
    let plant = Plant::default();
    let trace = trace(&[(200.0, 60_000)]);
    let mut a = climbs_to(P720);
    let mut b = climbs_to(P720);
    let ra = run(&plant, &trace, &mut a, &tx).expect("calibrated");
    let rb = run(&plant, &trace, &mut b, &tx).expect("calibrated");
    assert_eq!(ra.visited_kbps(), rb.visited_kbps());
    assert_eq!(ra.stall_ms_total, rb.stall_ms_total);
    assert!(ra.samples.iter().all(|s| s.buf_ms <= s.b_max_ms));
    assert!(ra.min_buf_ms() >= 0 && ra.final_rung_kbps() > 0);
    assert!(
        ra.samples.windows(2).all(|w| w[1].at_ms > w[0].at_ms),
        "time went backwards"
    );
    assert!(ra.samples.iter().all(|s| s.capacity_kbps == 60_000));
    assert!(
        ra.commits.iter().any(|&(_, rung)| rung == P720.kbps),
        "a fast measured link must let a low-start simulation commit its first strict-Pareto upshift; commits={:?}",
        ra.commits,
    );
    assert_eq!(
        ra.committed_candidate_objects, 1,
        "a directly sustainable boundary commits without fetching a gratuitous second object",
    );
    assert!(
        ra.samples
            .iter()
            .all(|s| { Calibration::point(s.rung_kbps).map(|p| p.ts_kbps) == Some(s.ts_kbps) }),
        "a sample carried a rate that is not its rung's calibrated one",
    );
}

#[test]
fn a_setup_bearing_boundary_commits_with_one_ordinary_object_atomically() {
    let tx = every_leg(cost(100, 2_500, 900));
    let plant = Plant::default();
    let trace = trace(&[(200.0, 60_000)]);
    let mut controller = climbs_to(P720);
    controller.boundary = CandidateVerdict::SetupBearing;

    let report = run(&plant, &trace, &mut controller, &tx).expect("fully measured model");
    assert!(
        report.commits.iter().any(|&(_, rung)| rung == P720.kbps),
        "the ordinary object from the running encoder must be able to validate its setup-bearing boundary",
    );
    assert_eq!(
        report.committed_candidate_objects, 2,
        "both staged objects publish together; neither is credited before commit",
    );
}

#[test]
fn every_way_a_run_stops_has_its_own_message() {
    let plant = Plant::default();
    let trace = trace(&[(30.0, 60_000)]);
    let leg = cost(300, 900, 700);
    let stopped = |mut policy: Replay, tx: TransactionModel| {
        run(&plant, &trace, &mut policy, &tx).expect_err("it must stop")
    };

    assert_eq!(
        stopped(proposes(up(P1080_M14)), every_leg(leg)),
        "rung 14000kbps is UNCALIBRATED — measure it before simulating it (reached via an UPSHIFT proposal)"
    );
    assert_eq!(
        stopped(proposes(down(P1080_M14)), every_leg(leg)),
        "rung 14000kbps is UNCALIBRATED — measure it before simulating it (reached via a DOWNSHIFT proposal)"
    );
    assert_eq!(
        stopped(Replay::new(P1080_M14, Vec::new(), None), every_leg(leg)),
        "rung 14000kbps is UNCALIBRATED — measure it before simulating it (reached via the rung being played)"
    );

    assert_eq!(
        stopped(proposes(up(P720)), TransactionModel::unmeasured()),
        "transaction leg Up/commit is UNMEASURED — increment I2 exists to measure it"
    );
    assert_eq!(
        stopped(proposes(down(P240)), TransactionModel::unmeasured()),
        "transaction leg Down/commit is UNMEASURED — increment I2 exists to measure it"
    );
    let mut refuses = proposes(down(P240));
    refuses.ordinary = CandidateVerdict::Refused;
    assert_eq!(
        stopped(refuses, TransactionModel::measured()),
        "transaction leg Down/reject is UNMEASURED — increment I2 exists to measure it"
    );

    let mut broke = proposes(up(P720));
    broke.budget_ms = None;
    assert_eq!(
        stopped(broke, every_leg(leg)),
        "upward proposal 4000kbps has no executable exploration reserve at 2000ms"
    );
    let mut lost = proposes(up(P720));
    lost.arms = false;
    assert_eq!(
        stopped(lost, every_leg(leg)),
        "upward proposal 4000kbps lost its executable exploration frontier"
    );

    let contradictory = TransactionModel {
        up_commit: Some(cost(0, 100_000, 0)),
        up_reject: Some(cost(0, 0, 0)),
        down_commit: None,
        down_reject: None,
    };
    assert_eq!(
        stopped(proposes(up(P720)), contradictory),
        "transaction model is self-contradictory at 4000kbps: commit leg rejects but reject leg commits"
    );
    let mut stubborn = proposes(up(P720));
    stubborn.commits = false;
    assert_eq!(
        stopped(stubborn, every_leg(leg)),
        "controller refused candidate after the plant had authorized its commit at 4000kbps"
    );
}

#[test]
fn a_failure_speaks_of_negative_reserves_too() {
    let failure = Failure::NoReserve {
        kbps: 320,
        reserve_ms: i64::MIN,
    };
    assert_eq!(
        failure.message(),
        "upward proposal 320kbps has no executable exploration reserve at -9223372036854775808ms"
    );
    let failure = Failure::Uncalibrated {
        kbps: 0,
        reached: Reached::Playing,
    };
    assert!(failure.message().starts_with("rung 0kbps is UNCALIBRATED"));
}

#[test]
fn a_run_has_to_fit_its_clock() {
    let plant = Plant::default();
    let tx = TransactionModel::measured();
    let hour = trace(&[(3_600.0, 40_000)]);
    assert!(can_run(&plant, &hour, &tx));
    assert!(can_run(&plant, &Trace::new(&[(u32::MAX as i64, 1)]), &tx));
    assert!(!can_run(&plant, &Trace::new(&[(u32::MAX as i64 + 1, 1)]), &tx));
    let halted = Plant {
        segment_ms: 0,
        ..plant
    };
    assert!(!can_run(&halted, &hour, &tx));
    assert!(can_run(&halted, &Trace::new(&[]), &tx));
    let lagging = Plant {
        audio_lead_ms: -50_000,
        ..plant
    };
    assert!(can_run(&lagging, &hour, &tx));
    let sunk = Plant {
        video_lead_ms: i64::MIN,
        ..plant
    };
    assert!(!can_run(&sunk, &hour, &tx));
    assert!(can_run(&sunk, &Trace::new(&[]), &tx));
    assert!(can_run(&plant, &hour, &every_leg(cost(0, i64::MAX / 2, 0))));
    assert!(!can_run(&plant, &hour, &every_leg(cost(0, i64::MAX, 0))));
}

#[test]
fn a_lane_that_lags_behind_owes_its_reserve() {
    let plant = Plant {
        audio_lead_ms: -50_000,
        ..Plant::default()
    };
    // The audio lane holds 43690 at this rung.
    assert_eq!(plant.b_max_ms(&p20000()), -6_310);
    let rung = Rung {
        kbps: 20_000,
        max_width: 1_920,
        max_height: 1_080,
    };
    let mut policy = Replay::new(rung, Vec::new(), None);
    let report = run(
        &plant,
        &Trace::new(&[(9_000, 60_000)]),
        &mut policy,
        &TransactionModel::unmeasured(),
    )
    .expect("no leg is needed");
    let seen: Vec<(i64, i64, i64)> = report
        .samples
        .iter()
        .map(|s| (s.wall_ms, s.stall_ms, s.buf_ms))
        .collect();
    assert_eq!(seen, vec![(8_310, 8_310, -6_310), (2_000, 8_310, -6_310)]);
    assert_eq!(report.min_buf_ms(), -6_310);
    assert_eq!(report.stall_ms_total, 16_620);
}

#[test]
fn a_segment_of_negative_length_takes_from_the_reserve() {
    let plant = Plant {
        segment_ms: -2_000,
        ..Plant::default()
    };
    let (mut now, mut buf) = (0, 0);
    let legs = Trace::new(&[(20, 60_000)]);
    let (o, sample) = step(&plant, &legs, &p720(), &mut now, &mut buf, 720);
    assert_eq!((o.wall_ms, o.stall_ms, o.buf_ms), (24, 24, -2_000));
    assert_eq!((sample.bytes, sample.media_ms), (1, 2_000));
    assert_eq!((sample.active_fetch_us, sample.total_fetch_us), (1_000, 24_000));
    let mut policy = Replay::new(P480, Vec::new(), None);
    let report = run(&plant, &legs, &mut policy, &TransactionModel::unmeasured());
    assert_eq!(report.expect("no leg is needed").min_buf_ms(), -2_000);
}

#[test]
fn an_empty_schedule_reports_nothing() {
    let mut policy = climbs_to(P720);
    let report = run(
        &Plant::default(),
        &Trace::new(&[]),
        &mut policy,
        &TransactionModel::measured(),
    )
    .expect("nothing to refuse");
    assert!(report.samples.is_empty() && report.commits.is_empty());
    assert_eq!(report.min_buf_ms(), 0);
    assert_eq!(report.final_rung_kbps(), 0);
    assert!(report.visited_kbps().is_empty());
    assert_eq!(report.first_decision, None);
    assert_eq!(Report::default().min_buf_ms(), 0);
}

// ---- what holds of every run ----------------------------------------------------------------

/// The clock of a run: segments' wall time and both parts of the transactions.
fn clock(report: &Report) -> i64 {
    let playing: i64 = report.samples.iter().map(|s| s.wall_ms).sum();
    playing + report.tx_control_plane_ms + report.tx_media_ms
}

#[test]
fn a_rejected_candidate_costs_its_time_and_adds_nothing() {
    let mut policy = proposes(up(P720));
    policy.boundary = CandidateVerdict::Refused;
    let report = run(
        &Plant::default(),
        &Trace::new(&[(1_000, 60_000)]),
        &mut policy,
        &every_leg(cost(300, 900, 700)),
    )
    .expect("measured");
    // A segment of 50, a transaction of 1200.
    assert_eq!(clock(&report), 1_250);
    assert_eq!((report.primes, report.rejects), (1, 1));
    assert_eq!((report.tx_control_plane_ms, report.tx_media_ms), (300, 900));
    assert_eq!((report.stall_ms_total, report.stall_ms_max), (50, 50));
    assert_eq!(report.committed_candidate_objects, 0);
    assert!(report.commits.is_empty());
    assert_eq!(report.first_decision, Some(Decision::Prime(up(P720))));
    assert_eq!(report.first_buf_ms, 2_000);
    assert_eq!(policy.rung, P480);
}

#[test]
fn a_committed_candidate_publishes_all_of_its_objects_at_once() {
    let mut policy = Replay::new(P480, vec![Decision::Prime(up(P720))], Some(10_000));
    policy.boundary = CandidateVerdict::SetupBearing;
    let report = run(
        &Plant::default(),
        &Trace::new(&[(2_000, 60_000)]),
        &mut policy,
        &every_leg(cost(300, 900, 700)),
    )
    .expect("measured");
    // The reserve of 2000 drains by 1900, and two segments of 2000 are published.
    assert_eq!(report.commits, vec![(1_950, 4_000)]);
    assert_eq!(report.committed_candidate_objects, 2);
    let after = report.samples[1];
    assert_eq!(after.rung_kbps, 4_000);
    assert_eq!(after.acquire_ms, 230);
    assert_eq!(after.at_ms, 2_180);
    assert_eq!(after.buf_ms, 100 + 4_000 - 230 + 2_000);
    assert_eq!(clock(&report), 2_180);
    assert_eq!(report.visited_kbps(), vec![720, 4_000]);
    assert_eq!(report.final_rung_kbps(), 4_000);
    assert_eq!(report.min_buf_ms(), 2_000);
    assert_eq!(policy.rung, P720);
}

#[test]
fn a_transaction_that_outlasts_the_reserve_stalls() {
    let mut policy = Replay::new(P480, vec![Decision::Prime(down(P240))], None);
    let report = run(
        &Plant::default(),
        &Trace::new(&[(1_000, 60_000)]),
        &mut policy,
        &every_leg(cost(500, 3_000, 0)),
    )
    .expect("measured");
    assert_eq!((report.stall_ms_total, report.stall_ms_max), (1_550, 1_500));
    assert_eq!(report.commits, vec![(3_550, 320)]);
}

#[test]
fn a_run_is_accounted_for_to_the_millisecond() {
    let plant = Plant::default();
    let legs = trace(&[(20.0, 3_000), (60.0, 500), (120.0, 40_000)]);
    let mut policy = Replay::new(
        P720,
        vec![
            Decision::Hold,
            Decision::Prime(down(P480)),
            Decision::Hold,
            Decision::Prime(down(P240)),
            Decision::Prime(up(P720)),
        ],
        Some(1_000),
    );
    let report = run(&plant, &legs, &mut policy, &every_leg(cost(6, 700, 400))).expect("measured");
    assert!(clock(&report) >= legs.horizon_ms());
    assert_eq!(report.primes as usize, report.rejects as usize + report.commits.len());
    assert!(report.stall_ms_max <= report.stall_ms_total);
    assert!(report.stall_ms_total <= clock(&report));
    for s in &report.samples {
        let point = Calibration::point(s.rung_kbps).expect("only measured rungs");
        assert_eq!(s.ts_kbps, point.ts_kbps);
        assert_eq!(s.b_max_ms, plant.b_max_ms(&point));
        assert_eq!(s.capacity_kbps, legs.capacity_kbps(s.at_ms - s.wall_ms));
        assert!(1 <= s.acquire_ms && s.acquire_ms <= s.wall_ms);
        assert!(0 <= s.stall_ms && s.stall_ms <= s.wall_ms);
        assert!(0 <= s.buf_ms && s.buf_ms <= s.b_max_ms);
    }
    assert!(report.samples.windows(2).all(|w| w[0].at_ms < w[1].at_ms));
}

#[test]
fn an_attempt_is_charged_the_leg_of_its_outcome() {
    let tx = TransactionModel {
        up_commit: Some(cost(10, 400, 0)),
        up_reject: Some(cost(20, 900, 0)),
        down_commit: None,
        down_reject: None,
    };
    let legs = Trace::new(&[(100, 60_000)]);
    let mut accepts = proposes(up(P720));
    let report = run(&Plant::default(), &legs, &mut accepts, &tx);
    let report = report.expect("measured");
    assert_eq!((report.tx_control_plane_ms, report.tx_media_ms), (10, 400));
    let mut refuses = proposes(up(P720));
    refuses.boundary = CandidateVerdict::Refused;
    let report = run(&Plant::default(), &legs, &mut refuses, &tx);
    let report = report.expect("measured");
    assert_eq!((report.tx_control_plane_ms, report.tx_media_ms), (20, 900));
}

#[test]
fn a_policy_that_never_proposes_needs_no_measured_leg() {
    let mut policy = Replay::new(P480, Vec::new(), None);
    let report = run(
        &Plant::default(),
        &trace(&[(30.0, 6_000)]),
        &mut policy,
        &TransactionModel::unmeasured(),
    )
    .expect("no leg is needed");
    assert_eq!((report.primes, report.rejects), (0, 0));
    assert!(report.samples.iter().all(|s| s.rung_kbps == 720));
}

#[test]
fn the_ceiling_falls_as_the_rates_rise() {
    let plant = Plant::default();
    let ceilings: Vec<i64> = CALIBRATED
        .iter()
        .map(|&kbps| plant.b_max_ms(&Calibration::point(kbps).expect("listed")))
        .collect();
    assert!(ceilings.windows(2).all(|w| w[1] <= w[0]), "{ceilings:?}");
}

#[test]
fn only_the_listed_rungs_are_measured() {
    for kbps in [0, 319, 6_000, 8_000, 12_000, 18_000, 22_000, u32::MAX] {
        assert!(!CALIBRATED.contains(&kbps));
        assert!(Calibration::point(kbps).is_none());
        assert!(Calibration::census_buf_ms(kbps).is_none());
    }
    for kbps in CALIBRATED {
        assert_eq!(
            Calibration::point(kbps).expect("listed").declared_kbps,
            kbps
        );
    }
}

#[test]
fn what_the_reserve_cannot_cover_is_the_stall() {
    let plant = Plant::default();
    let legs = trace(&[(600.0, 1_000)]);
    for start in [0, 500, 20_000] {
        let (mut now, mut buf) = (0, start);
        let (o, _) = step(&plant, &legs, &p4000(), &mut now, &mut buf, 4_000);
        // 4386 * 2000 / 1000 = 8772, and 84 of overhead.
        assert_eq!(o.acquire_ms, 8_856);
        assert_eq!(start.min(o.wall_ms) + o.stall_ms, o.wall_ms);
    }
}

#[test]
fn a_wider_link_is_no_slower() {
    let plant = Plant::default();
    let acquire = |kbps: u32| {
        let (mut now, mut buf) = (0, 0);
        let legs = Trace::new(&[(1_000, kbps)]);
        step(&plant, &legs, &p4000(), &mut now, &mut buf, 4_000).0.acquire_ms
    };
    assert_eq!(acquire(2_193), 4_084);
    assert_eq!(acquire(4_386), 2_084);
    assert_eq!(acquire(8_772), 1_084);
}

#[test]
fn a_settled_plant_stays_at_its_ceiling() {
    let plant = Plant::default();
    let legs = trace(&[(600.0, 40_000)]);
    let ceiling = plant.b_max_ms(&p4000());
    let (mut now, mut buf) = (0, ceiling);
    let (o, sample) = step(&plant, &legs, &p4000(), &mut now, &mut buf, 4_000);
    assert_eq!((o.wall_ms, o.stall_ms, o.buf_ms), (2_000, 0, ceiling));
    // 4386 * 2000 / 40000 = 219, and 84 of overhead.
    assert_eq!(sample.total_fetch_us, 303_000);
    assert_eq!(sample.production_ratio_pm(), 151);
}
