//! The device's codec table and what is made of it.
use plex_player::devcaps::{
    canon, min_nz, parse, probe, AudioRow, Caps, Probed, Snapshot, Table, TableRead, VideoRow,
};
use plex_player::plex::transcoder::DP_AUDIO_CODECS;
use serde_json::Value;

// ---- reading a table out of its text ---------------------------------------------------------

/// A list of rows, where a missing one is empty. `None` where it is no list.
fn rows<'a>(table: &'a Value, key: &str) -> Option<Vec<&'a Value>> {
    match table.as_object()?.get(key) {
        None => Some(Vec::new()),
        Some(list) => {
            Some(list.as_array()?.iter().collect())
        }
    }
}

fn name(row: &Value) -> Option<String> {
    match row.get("name") {
        None => Some(String::new()),
        Some(name) => Some(name.as_str()?.to_string()),
    }
}

fn axis(row: &Value, key: &str) -> Option<u32> {
    match row.get(key) {
        None => Some(0),
        Some(number) => u32::try_from(number.as_u64()?).ok(),
    }
}

fn frame_rate(row: &Value) -> Option<u32> {
    match row.get("maxFrameRate") {
        None => Some(0),
        Some(number) => {
            let fps = number.as_f64()?;
            if fps.is_finite() && fps > 0.0 {
                Some(fps.ceil() as u32)
            } else {
                Some(0)
            }
        }
    }
}

fn video_row(row: &Value) -> Option<VideoRow> {
    row.as_object()?;
    Some(VideoRow {
        name: name(row)?,
        max_width: axis(row, "maxWidth")?,
        max_height: axis(row, "maxHeight")?,
        max_frame_rate: frame_rate(row)?,
    })
}

fn audio_row(row: &Value) -> Option<AudioRow> {
    row.as_object()?;
    Some(AudioRow { name: name(row)? })
}

/// The table in this text. A malformed row is one that said nothing.
fn read(text: &str) -> Option<Table> {
    let value: Value = serde_json::from_str(text).ok()?;
    let mut video_codecs = Vec::new();
    for row in rows(&value, "videoCodecs")? {
        video_codecs.push(video_row(row).unwrap_or_else(|| video("", 0, 0, 0)));
    }
    let mut audio_codecs = Vec::new();
    for row in rows(&value, "audioCodecs")? {
        audio_codecs.push(audio_row(row).unwrap_or_else(|| audio("")));
    }
    Some(Table {
        video_codecs,
        audio_codecs,
    })
}

fn parse_text(text: &str) -> Option<Caps> {
    parse(&read(text)?)
}

fn video(name: &str, max_width: u32, max_height: u32, max_frame_rate: u32) -> VideoRow {
    VideoRow {
        name: name.to_string(),
        max_width,
        max_height,
        max_frame_rate,
    }
}

fn audio(name: &str) -> AudioRow {
    AudioRow {
        name: name.to_string(),
    }
}

const REAL: &str = r#"{
  "license" : "@@@LICENSE  Copyright (c) 2018 LG Electronics, Inc.  LICENSE@@@",
  "version" : "1.0",
  "videoCodecs" : [
    {
      "name" : "H.264",
      "maxWidth" : 4096,
      "maxHeight" : 2304,
      "maxFrameRate" : 60,
      "maxBitRate" : 50
    },

    {
      "name" : "H.265",
      "maxWidth" : 4096,
      "maxHeight" : 2304,
      "maxFrameRate" : 120,
      "maxBitRate" : 50
    },

    {
      "name" : "HEVC",
      "maxWidth" : 4096,
      "maxHeight" : 2176,
      "maxFrameRate" : 60,
      "maxBitRate" : 50
    },

    {
      "name" : "MPEG2",
      "maxWidth" : 1920,
      "maxHeight" : 1088,
      "maxFrameRate" : 30,
      "maxBitRate" : 40
    },

    {
      "name" : "VP8",
      "maxWidth" : 1920,
      "maxHeight" : 1088,
      "maxFrameRate" : 30,
      "maxBitRate" : 40
    },

    {
      "name" : "VP9",
      "maxWidth" : 4096,
      "maxHeight" : 2304,
      "maxFrameRate" : 60,
      "maxBitRate" : 50
    }
  ],
  "audioCodecs" : [
    {
      "name" : "MPEG",
      "channels" : 2
    },

    {
      "name" : "AAC",
      "channels" : 6
    },

    {
      "name" : "AC3",
      "channels" : 6
    },

    {
      "name" : "EAC3",
      "channels" : 8
    },

    {
      "name" : "DTS",
      "channels" : 6
    },

    {
      "name" : "FLAC",
      "channels" : 6
    }
  ]
}"#;

// ---- parsing --------------------------------------------------------------------------------

#[test]
fn reads_the_dev_sets_real_table() {
    let c = parse_text(REAL).expect("the real table parses");
    assert!(c.hevc && c.vp9);
    assert_eq!(c.hevc_max, (4096, 2176));
    assert_eq!(c.h264_row, (4096, 2304, 60));
    assert_eq!(c.hevc_row, (4096, 2176, 60));
    let frac = parse_text(r#"{"videoCodecs":[{"name":"H.264","maxWidth":1920,"maxHeight":1088,"maxFrameRate":59.94}]}"#).unwrap();
    assert_eq!(frac.h264_row, (1920, 1088, 60));
    assert_eq!(c.audio, "aac,ac3,eac3,dca");
}

#[test]
fn duplicate_rows_merge_by_min_on_every_axis() {
    let c = parse_text(
        r#"{"videoCodecs":[
                {"name":"H.264","maxWidth":4096,"maxHeight":2304},
                {"name":"H.265","maxWidth":3000,"maxHeight":2304},
                {"name":"HEVC","maxWidth":4096,"maxHeight":2176}
            ]}"#,
    )
    .unwrap();
    assert_eq!(c.hevc_max, (3000, 2176));
}

#[test]
fn the_bound_is_the_min_across_both_decoders_not_the_hevc_rows_alone() {
    let c = parse_text(
        r#"{"videoCodecs":[
                {"name":"H.264","maxWidth":1920,"maxHeight":1088},
                {"name":"HEVC","maxWidth":3840,"maxHeight":2160}
            ]}"#,
    )
    .unwrap();
    assert!(c.hevc);
    assert_eq!(c.hevc_max, (1920, 1088));
}

#[test]
fn a_dimensionless_duplicate_does_not_erase_the_stated_bound() {
    let c = parse_text(
        r#"{"videoCodecs":[
                {"name":"H.264","maxWidth":4096,"maxHeight":2304},
                {"name":"HEVC","maxWidth":4096,"maxHeight":2176},
                {"name":"H.265"}
            ]}"#,
    )
    .unwrap();
    assert_eq!(c.hevc_max, (4096, 2176));
}

#[test]
fn a_soc_without_hevc_bounds_at_its_h264_row() {
    let c = parse_text(
        r#"{"videoCodecs":[{"name":"H.264","maxWidth":1920,"maxHeight":1088}],
                "audioCodecs":[{"name":"AAC","channels":2}]}"#,
    )
    .unwrap();
    assert!(!c.hevc);
    assert_eq!(c.hevc_max, (1920, 1088));
    assert_eq!(c.audio, "aac");
    assert_eq!(c.hevc_row, (0, 0, 0));
}

#[test]
fn codec_names_match_case_and_punctuation_insensitively() {
    let c = parse_text(
        r#"{"videoCodecs":[{"name":"H264","maxWidth":3840,"maxHeight":2160},
                              {"name":"h265","maxWidth":3840,"maxHeight":2160}],
                "audioCodecs":[{"name":"aAc"},{"name":"Ac-3"},{"name":"E-AC3"}]}"#,
    )
    .unwrap();
    assert!(c.hevc);
    assert_eq!(c.audio, "aac,ac3,eac3");
}

#[test]
fn garbage_and_vacuous_tables_are_none_not_a_panic() {
    for bad in [
        "",
        "not json at all",
        "{",
        "{}",
        r#"{"videoCodecs":[]}"#,
        r#"{"videoCodecs":"nope"}"#,
        r#"{"videoCodecs":[{"name":"VP9","maxWidth":3840,"maxHeight":2160}]}"#,
        r#"{"videoCodecs":[{"name":"H.264"}]}"#,
        r#"{"videoCodecs":[{"name":"H.264","maxWidth":1920}]}"#,
    ] {
        assert!(parse_text(bad).is_none(), "input {bad:?}");
    }
}

#[test]
fn an_empty_audio_intersection_falls_back_to_the_full_dp_set() {
    let c = parse_text(
        r#"{"videoCodecs":[{"name":"H.264","maxWidth":1920,"maxHeight":1088}],
                "audioCodecs":[{"name":"MP3"},{"name":"WMA"}]}"#,
    )
    .unwrap();
    assert_eq!(c.audio, DP_AUDIO_CODECS);
}

#[test]
fn the_tables_dts_row_folds_onto_pmss_dca() {
    for row in ["DTS", "DTS-HD", "dts"] {
        let c = parse_text(&format!(
            r#"{{"videoCodecs":[{{"name":"H.264","maxWidth":1920,"maxHeight":1088}}],
                    "audioCodecs":[{{"name":"{row}"}}]}}"#
        ))
        .unwrap();
        assert_eq!(c.audio, "dca", "{row}");
        assert!(c.audio_has("dca"));
    }
}

#[test]
fn the_assumed_profile_is_todays_constants() {
    let c = Caps::assumed();
    assert!(c.hevc);
    assert_eq!(c.hevc_max, (3840, 2176));
    assert_eq!(c.audio, "aac,ac3,eac3,dca");
    assert_eq!((c.h264_row, c.hevc_row, c.vp9), ((0, 0, 0), (0, 0, 0), true));
}

// ---- the pieces -----------------------------------------------------------------------------

#[test]
fn a_canonical_name_stays_what_it_is() {
    for (spelled, canonical) in [
        ("H.264", "h264"),
        ("H.265", "h265"),
        ("HEVC", "hevc"),
        ("E-AC3", "eac3"),
        ("DTS-HD", "dca"),
        ("dtshd", "dca"),
        ("d.t.s", "dca"),
        ("Ärger-9", "Ärger9"),
        ("", ""),
    ] {
        assert_eq!(canon(spelled), canonical);
        assert_eq!(canon(canonical), canonical);
    }
}

#[test]
fn an_unstated_value_bounds_nothing() {
    assert_eq!(min_nz(0, 0), 0);
    assert_eq!(min_nz(0, 7), 7);
    assert_eq!(min_nz(7, 0), 7);
    assert_eq!(min_nz(7, 9), 7);
    assert_eq!(min_nz(9, 7), 7);
}

#[test]
fn the_audio_list_is_matched_whole() {
    let c = Caps::assumed();
    assert!(c.audio_has("aac") && c.audio_has("eac3"));
    assert!(!c.audio_has("ac") && !c.audio_has("ac3,eac3") && !c.audio_has(""));
    let none = Caps {
        audio: String::new(),
        ..Caps::assumed()
    };
    assert!(none.audio_has(""), "an empty list has one empty part");
}

#[test]
fn the_merged_value_is_the_tightest_stated_one() {
    let table = Table {
        video_codecs: vec![
            video("H.264", 4096, 0, 60),
            video("H.264", 0, 2304, 0),
            video("h-264", 1920, 4000, 120),
        ],
        audio_codecs: Vec::new(),
    };
    let c = parse(&table).expect("bounded");
    assert_eq!(c.h264_row, (1920, 2304, 60));
    assert_eq!(c.hevc_max, (1920, 2304));
    assert!(!c.hevc && !c.vp9);
}

#[test]
fn the_order_and_the_repetition_of_rows_mean_nothing() {
    let first = Table {
        video_codecs: vec![
            video("H.264", 1920, 1088, 60),
            video("HEVC", 3840, 2160, 30),
            video("VP9", 1, 1, 1),
        ],
        audio_codecs: vec![audio("EAC3"), audio("AAC")],
    };
    let second = Table {
        video_codecs: vec![
            video("VP9", 1, 1, 1),
            video("HEVC", 3840, 2160, 30),
            video("H.264", 1920, 1088, 60),
            video("HEVC", 3840, 2160, 30),
        ],
        audio_codecs: vec![audio("AAC"), audio("EAC3"), audio("AAC")],
    };
    let caps = parse(&first).expect("bounded");
    assert_eq!(caps, parse(&second).expect("bounded"));
    assert_eq!(caps.audio, "aac,eac3");
}

#[test]
fn the_bound_claims_no_decoder_too_much() {
    let table = Table {
        video_codecs: vec![
            video("H.264", 4096, 1088, 60),
            video("HEVC", 1920, 2160, 60),
            video("MPEG2", 720, 576, 30),
        ],
        audio_codecs: Vec::new(),
    };
    assert_eq!(parse(&table).expect("bounded").hevc_max, (1920, 1088));
}

#[test]
fn a_malformed_row_says_nothing() {
    let c = parse_text(
        r#"{"videoCodecs":[
                {"name":"H.264","maxWidth":1920,"maxHeight":1088},
                {"name":"HEVC","maxWidth":"wide"},
                7
            ],
            "audioCodecs":[{"name":"AC3"},{"name":5},null]}"#,
    )
    .expect("the other rows stand");
    assert!(!c.hevc);
    assert_eq!(c.hevc_max, (1920, 1088));
    assert_eq!(c.audio, "ac3");
}

#[test]
fn a_nameless_row_bounds_nothing() {
    let mut table = read(REAL).expect("a table");
    table.video_codecs.push(video("", 1, 1, 1));
    table.video_codecs.push(video(".-", 1, 1, 1));
    assert_eq!(parse(&table), parse_text(REAL));
}

// ---- the probe and its snapshot --------------------------------------------------------------

#[test]
fn a_probe_says_what_it_read() {
    let table = read(REAL).expect("a table");
    let Probed {
        caps,
        measured,
        log,
    } = probe(&TableRead::Read(table));
    assert!(measured);
    assert_eq!(caps, parse_text(REAL).expect("parses"));
    assert_eq!(
        log,
        "devcaps: hevc=true 4096x2176 vp9=true audio=aac,ac3,eac3,dca rows: h264=4096x2304@60 hevc=4096x2176@60 (device table)"
    );
}

#[test]
fn a_probe_without_a_usable_table_falls_back_whole() {
    let unreadable = probe(&TableRead::Unreadable("No such file".to_string()));
    assert_eq!(
        unreadable.log,
        "devcaps: /etc/umediaserver/device_codec_capability_config.json unreadable (No such file) — assuming the 49SM9000PLA profile"
    );
    let unparseable = probe(&TableRead::Unparseable);
    assert_eq!(
        unparseable.log,
        "devcaps: /etc/umediaserver/device_codec_capability_config.json unparseable — assuming the 49SM9000PLA profile"
    );
    let unusable = probe(&TableRead::Read(Table {
        video_codecs: vec![video("VP9", 3840, 2160, 60)],
        audio_codecs: vec![audio("AAC")],
    }));
    assert_eq!(unusable.log, unparseable.log);
    for probed in [unreadable, unparseable, unusable] {
        assert!(!probed.measured);
        assert_eq!(probed.caps, Caps::assumed());
    }
}

#[test]
fn the_first_settlement_of_a_snapshot_stays() {
    let table = Table {
        video_codecs: vec![video("H.264", 1920, 1088, 60)],
        audio_codecs: vec![audio("AAC")],
    };
    let probed = probe(&TableRead::Read(table));

    let mut snapshot = Snapshot::new();
    assert!(!snapshot.measured());
    snapshot.publish(&probed);
    assert!(snapshot.measured());
    assert_eq!(*snapshot.caps(), probed.caps);
    snapshot.publish(&probe(&TableRead::Unparseable));
    assert!(snapshot.measured());
    assert_eq!(*snapshot.caps(), probed.caps);

    let mut read_first = Snapshot::new();
    assert_eq!(*read_first.caps(), Caps::assumed());
    read_first.publish(&probed);
    assert_ne!(probed.caps, Caps::assumed());
    assert_eq!(*read_first.caps(), Caps::assumed());
    assert!(
        !read_first.measured(),
        "the assumed profile is not measured by a later probe"
    );
}

#[test]
fn a_snapshot_is_measured_only_by_the_probe_that_settled_it() {
    let table = Table {
        video_codecs: vec![video("H.264", 1920, 1088, 60)],
        audio_codecs: vec![audio("AAC")],
    };
    let good = probe(&TableRead::Read(table));
    let bad = probe(&TableRead::Unparseable);
    for reads_first in [false, true] {
        for probes in [
            vec![&good],
            vec![&bad],
            vec![&good, &bad],
            vec![&bad, &good],
        ] {
            let mut snapshot = Snapshot::new();
            if reads_first {
                snapshot.caps();
            }
            for probed in probes {
                snapshot.publish(probed);
                let measured = snapshot.measured();
                assert_eq!(measured, *snapshot.caps() == good.caps);
                assert_eq!(!measured, *snapshot.caps() == Caps::assumed());
            }
        }
    }
}

#[test]
fn the_encode_target_follows_the_decoder() {
    assert_eq!(Caps::assumed().encode_vcodec(), "hevc");
    let without = Caps {
        hevc: false,
        ..Caps::assumed().clone()
    };
    assert_eq!(without.encode_vcodec(), "h264");
}
