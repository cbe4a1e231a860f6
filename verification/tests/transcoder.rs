//! The transcoder's requests, the capability profile and the link policy.
use plex_player::devcaps::{probe, Caps, Snapshot, TableRead};
use plex_player::plex::client::{Client, Method, Origin, StreamUrl};
use plex_player::plex::params::{Ceiling, TranscodeDelivery, TranscodeOffset, TranscodeSpec};
use plex_player::plex::probe::Location;
use plex_player::plex::query::QueryBuilder;
use plex_player::plex::transcoder::{
    accepted, dp_audio_key, is_dp_audio, link_policy, profile_extra, profile_for, profile_for_delivery,
    LinkPolicy, DP_AUDIO_CODECS,
};

fn a_client() -> Client {
    Client::new(Origin::http("10.0.0.1", 32400), "tok", "cid")
}

fn spec<'a>(remux: bool, no_video_copy: bool) -> TranscodeSpec<'a> {
    TranscodeSpec {
        rating_key: "5",
        session: "s1",
        encoder_session: "s1",
        delivery: TranscodeDelivery::ProgressiveMkv,
        remux,
        no_video_copy,
        audio_stream_id: 0,
        subtitle_stream_id: 0,
        offset: TranscodeOffset::Fresh,
        ceiling: None,
    }
}

fn query(s: &TranscodeSpec) -> String {
    a_client().transcode_query(&Caps::assumed(), s)
}

/// The values that a query carries under one key.
fn values(query: &str, key: &str) -> Vec<String> {
    query
        .split('&')
        .filter_map(|param| param.split_once('='))
        .filter(|(k, _)| *k == key)
        .map(|(_, v)| v.to_string())
        .collect()
}

// ---- who may copy ---------------------------------------------------------------------------

#[test]
fn the_ordinary_re_encode_still_lets_the_server_copy() {
    let q = query(&spec(false, false));
    assert!(q.contains("directStream=1"), "{q}");
    assert!(q.contains("directPlay=0"), "{q}");
    assert!(q.contains("videoResolution=3840x2160"), "{q}");
    assert!(!q.contains("directStream=0"), "{q}");
}

#[test]
fn a_pixel_refusal_withdraws_the_copy_permission_but_not_the_audio_one() {
    let q = query(&spec(false, true));
    assert!(
        q.contains("directStream=0"),
        "the server must not copy the video: {q}"
    );
    assert!(
        q.contains("directStreamAudio=1"),
        "audio may still be copied: {q}"
    );
    assert!(q.contains("videoResolution=3840x2160"), "{q}");
    assert!(q.contains("maxVideoBitrate=60000"), "{q}");
    assert_eq!(
        q.matches("directStream=").count(),
        1,
        "one directStream, not two: {q}"
    );
}

#[test]
fn a_remux_is_a_copy_and_the_flag_cannot_turn_it_into_something_else() {
    let plain = query(&spec(true, false));
    let flagged = query(&spec(true, true));
    assert_eq!(
        plain, flagged,
        "the flag is meaningless on the remux flavor"
    );
    assert!(plain.contains("directStream=1"), "{plain}");
    assert!(
        !plain.contains("videoResolution"),
        "a remux carries no cap, by design: {plain}"
    );
}

#[test]
fn every_flavor_says_once_whether_the_video_may_be_copied() {
    for remux in [false, true] {
        for no_video_copy in [false, true] {
            let q = query(&spec(remux, no_video_copy));
            let allowed = if no_video_copy && !remux { "0" } else { "1" };
            assert_eq!(values(&q, "directStream"), [allowed], "{q}");
        }
    }
}

// ---- the ceiling ----------------------------------------------------------------------------

#[test]
fn the_re_encode_query_carries_the_selected_ceiling_and_auto_still_asks_for_native_4k() {
    let auto = query(&spec(false, false));
    assert!(auto.contains("videoResolution=3840x2160"), "{auto}");
    assert!(auto.contains("maxVideoBitrate=60000"), "{auto}");

    let mut s = spec(false, false);
    s.ceiling = Some(Ceiling {
        max_kbps: 4000,
        max_w: 1280,
        max_h: 720,
    });
    let capped = query(&s);
    assert!(capped.contains("videoResolution=1280x720"), "{capped}");
    assert!(capped.contains("maxVideoBitrate=4000"), "{capped}");
    assert!(
        !capped.contains("3840x2160"),
        "the native-4K default must be replaced, not joined: {capped}"
    );
    assert!(!capped.contains("60000"), "{capped}");
    assert_eq!(
        capped.matches("maxVideoBitrate=").count(),
        1,
        "one cap, not two: {capped}"
    );
    assert_eq!(
        capped.matches("videoResolution=").count(),
        1,
        "one resolution, not two: {capped}"
    );

    assert_eq!(
        auto.replace("videoResolution=3840x2160", "R")
            .replace("maxVideoBitrate=60000", "B"),
        capped
            .replace("videoResolution=1280x720", "R")
            .replace("maxVideoBitrate=4000", "B"),
        "the ceiling changed something other than the two params it is allowed to"
    );

    let mut r = spec(true, false);
    r.ceiling = Some(Ceiling {
        max_kbps: 4000,
        max_w: 1280,
        max_h: 720,
    });
    let remuxed = query(&r);
    assert!(
        !remuxed.contains("maxVideoBitrate"),
        "a remux carries no cap, ceiling or not: {remuxed}"
    );
    assert!(!remuxed.contains("videoResolution"), "{remuxed}");
    assert_eq!(
        remuxed,
        query(&spec(true, false)),
        "the ceiling is inert on a remux"
    );
}

#[test]
fn a_playback_without_a_ceiling_has_the_native_one() {
    let mut s = spec(false, true);
    let unset = query(&s);
    s.ceiling = Some(Ceiling::native_4k());
    assert_eq!(query(&s), unset);
    assert_eq!(Ceiling::native_4k().resolution(), "3840x2160");
}

// ---- a segmented delivery -------------------------------------------------------------------

#[test]
fn fixed_hls_is_one_coherent_wire_contract() {
    let mut s = spec(false, false);
    s.delivery = TranscodeDelivery::FixedHls {
        seconds_per_segment: 2,
    };
    s.ceiling = Some(Ceiling {
        max_kbps: 720,
        max_w: 854,
        max_h: 480,
    });

    let c = a_client();
    let q = c.transcode_query(&Caps::assumed(), &s);
    for required in [
        "protocol=hls",
        "directStream=0",
        "directStreamAudio=0",
        "videoResolution=854x480",
        "videoBitrate=720",
        "maxVideoBitrate=720",
        "peakBitrate=720",
        "autoAdjustQuality=0",
        "secondsPerSegment=2",
    ] {
        assert!(q.contains(required), "missing {required}: {q}");
    }
    assert!(!q.contains("protocol=http"), "one protocol only: {q}");
    assert!(c
        .transcode_start_url(&Caps::assumed(), &s)
        .to_url()
        .contains("/start.m3u8?"));

    let profile = profile_for_delivery(
        &Caps {
            hevc: true,
            hevc_max: (4096, 2176),
            h264_row: (0, 0, 0),
            hevc_row: (0, 0, 0),
            vp9: true,
            audio: "aac,ac3,eac3".into(),
        },
        s.delivery,
    );
    let target = target_of(&profile);
    assert!(target.contains("protocol=hls"), "{target}");
    assert!(target.contains("container=mpegts"), "{target}");
    assert_eq!(list_of(target, "videoCodec="), ["h264"]);
    assert_eq!(list_of(target, "audioCodec="), ["aac"]);
}

#[test]
fn an_hls_replacement_keeps_the_exact_fractional_content_boundary() {
    let mut s = spec(false, false);
    s.delivery = TranscodeDelivery::FixedHls {
        seconds_per_segment: 2,
    };
    s.offset = TranscodeOffset::from_micros(2_002_000);
    let q = query(&s);
    assert!(q.contains("offset=2.002000"), "{q}");
    assert_eq!(q.matches("offset=").count(), 1, "{q}");
}

#[test]
fn the_probe_builder_keeps_the_two_session_wires_explicit() {
    let mut s = spec(false, false);
    s.delivery = TranscodeDelivery::FixedHls {
        seconds_per_segment: 2,
    };
    s.session = "playback-stable";
    s.encoder_session = "encoder-next";
    let q = query(&s);
    assert!(q.contains("session=encoder-next"), "{q}");
    assert!(
        q.contains("X-Plex-Session-Identifier=playback-stable"),
        "{q}"
    );
    assert!(!q.contains("session=playback-stable"), "{q}");
    assert_eq!(values(&q, "session"), ["encoder-next"]);
    assert_eq!(
        values(&q, "X-Plex-Session-Identifier"),
        ["playback-stable"]
    );
}

#[test]
fn an_offset_is_seconds_to_the_microsecond() {
    assert_eq!(TranscodeOffset::Fresh.wire_seconds(), None);
    for (micros, text) in [
        (0, "0.000000"),
        (1, "0.000001"),
        (999_999, "0.999999"),
        (1_000_000, "1.000000"),
        (u64::MAX, "18446744073709.551615"),
    ] {
        let offset = TranscodeOffset::from_micros(micros);
        assert_eq!(offset.wire_seconds(), Some(text.to_string()));
    }
}

// ---- whole queries --------------------------------------------------------------------------

#[test]
fn the_order_of_a_progressive_query() {
    let mut s = spec(false, false);
    s.audio_stream_id = 7;
    s.subtitle_stream_id = 9;
    s.offset = TranscodeOffset::from_micros(1_500_000);
    let q = query(&s);
    assert!(
        q.starts_with(
            "path=%2Flibrary%2Fmetadata%2F5&mediaIndex=0&partIndex=0&protocol=http&directPlay=0\
             &directStream=1&videoResolution=3840x2160&maxVideoBitrate=60000&audioStreamID=7\
             &subtitleStreamID=9&subtitleSize=100&subtitles=burn&session=s1\
             &X-Plex-Session-Identifier=s1&X-Plex-Client-Identifier=cid\
             &X-Plex-Client-Profile-Name=Generic&X-Plex-Client-Profile-Extra=add-direct-play-profile%28"
        ),
        "{q}"
    );
    assert!(q.ends_with("&offset=1.500000"), "{q}");
}

#[test]
fn the_order_of_a_segmented_query() {
    let mut s = spec(false, true);
    s.delivery = TranscodeDelivery::FixedHls {
        seconds_per_segment: 2,
    };
    let q = query(&s);
    assert!(
        q.starts_with(
            "path=%2Flibrary%2Fmetadata%2F5&mediaIndex=0&partIndex=0&protocol=hls&directPlay=0\
             &directStream=0&videoResolution=3840x2160&maxVideoBitrate=60000&videoBitrate=60000\
             &peakBitrate=60000&autoAdjustQuality=0&secondsPerSegment=2&videoQuality=100\
             &mediaBufferSize=20971&fastSeek=1&directStreamAudio=0&session=s1"
        ),
        "{q}"
    );
}

#[test]
fn the_decision_and_the_stream_carry_the_same_query() {
    let client = a_client().identified_by("X-Plex-Product", "a player");
    let caps = Caps::assumed();
    for delivery in [
        TranscodeDelivery::ProgressiveMkv,
        TranscodeDelivery::FixedHls {
            seconds_per_segment: 4,
        },
    ] {
        let s = TranscodeSpec {
            delivery,
            ..spec(false, true)
        };
        let decision = client.transcode_decision(&caps, &s);
        let start = client.transcode_start_url(&caps, &s);
        let registered = decision
            .path
            .strip_prefix("/video/:/transcode/universal/decision?")
            .expect("a decision");
        let (endpoint, streamed) = start.path.split_once('?').expect("a query");
        assert_eq!(registered, streamed);
        assert_eq!(
            registered,
            format!("{}&X-Plex-Token=tok", client.transcode_query(&caps, &s))
        );
        assert_eq!(values(streamed, "X-Plex-Product"), ["a%20player"]);
        assert_eq!(
            endpoint,
            match delivery {
                TranscodeDelivery::ProgressiveMkv => "/video/:/transcode/universal/start.mkv",
                TranscodeDelivery::FixedHls { .. } => "/video/:/transcode/universal/start.m3u8",
            }
        );
        assert_eq!(decision.method, Method::Get);
        assert_eq!(decision.headers, ["X-Plex-Session-Identifier: s1"]);
        assert!(start
            .to_url()
            .starts_with("http://10.0.0.1:32400/video/:/transcode/universal/start.m"));
    }
}

#[test]
fn the_direct_play_question() {
    let request = a_client().mde_decision(&Caps::assumed(), "42", "s7");
    assert_eq!(request.method, Method::Get);
    assert!(request.headers.is_empty());
    let profile = QueryBuilder::new("")
        .with_str("p", &profile_for(&Caps::assumed()))
        .query();
    assert_eq!(
        request.path,
        format!(
            "/video/:/transcode/universal/decision?path=%2Flibrary%2Fmetadata%2F42&mediaIndex=0\
             &partIndex=0&protocol=http&hasMDE=1&directPlay=1&directStream=1&directStreamAudio=1\
             &mediaBufferSize=20971&session=s7&X-Plex-Session-Identifier=s7\
             &X-Plex-Client-Identifier=cid&X-Plex-Client-Profile-Name=Generic\
             &X-Plex-Client-Profile-Extra={}&X-Plex-Token=tok",
            &profile[2..]
        )
    );
}

#[test]
fn the_path_of_a_scaled_image() {
    let client = a_client();
    assert_eq!(
        client.image_transcode_path("/library/metadata/5/thumb/1?x=ö", 320, 480, false),
        "/photo/:/transcode?width=320&height=480&minSize=1\
         &url=%2Flibrary%2Fmetadata%2F5%2Fthumb%2F1%3Fx%3D%C3%B6&X-Plex-Token=tok"
    );
    assert_eq!(
        client.image_transcode_path("/t", -1, 0, true),
        "/photo/:/transcode?width=-1&height=0&minSize=1&url=%2Ft&format=png&X-Plex-Token=tok"
    );
}

// ---- ending a session -----------------------------------------------------------------------

#[test]
fn transcode_ping_distinguishes_present_absent_and_unknown_cleanup_state() {
    let client = Client::new(Origin::http("127.0.0.1", 32400), "tok", "cid");
    assert_eq!(Client::transcode_session_present(Some(200)), Some(true));
    assert_eq!(Client::transcode_session_present(Some(404)), Some(false));
    assert_eq!(Client::transcode_session_present(Some(500)), None);
    assert_eq!(Client::transcode_session_present(Some(299)), Some(true));
    assert_eq!(Client::transcode_session_present(Some(300)), None);
    assert_eq!(Client::transcode_session_present(Some(199)), None);
    assert_eq!(Client::transcode_session_present(None), None);

    for expected in ["encoder-one", "encoder-two", "encoder-three"] {
        let request = client.session_ping(expected);
        assert_eq!(request.method, Method::Get);
        assert_eq!(
            request.path,
            format!("/video/:/transcode/universal/ping?session={expected}&X-Plex-Token=tok")
        );
    }
}

#[test]
fn the_statuses_of_an_accepted_request() {
    assert!(accepted(200) && accepted(204) && accepted(299));
    assert!(!accepted(199) && !accepted(300) && !accepted(404) && !accepted(0));
}

#[test]
fn a_session_query_splits_into_its_parameters() {
    let mut s = spec(false, false);
    s.rating_key = "5&directPlay=1";
    s.session = "a=b&c";
    let q = query(&s);
    assert_eq!(values(&q, "directPlay"), ["0"]);
    assert_eq!(values(&q, "X-Plex-Session-Identifier"), ["a%3Db%26c"]);
    assert_eq!(
        values(&q, "path"),
        ["%2Flibrary%2Fmetadata%2F5%26directPlay%3D1"]
    );
    assert_eq!(q.split('&').count(), 13);
}

#[test]
fn transcode_stop_closes_its_exact_streaming_resource() {
    let client = Client::new(Origin::http("127.0.0.1", 32400), "tok", "cid");
    let request = client.transcode_stop("encoder-one");
    let line = request.path;
    assert!(line.contains("session=encoder-one"), "{line}");
    assert!(line.contains("closeResourceSession=1"), "{line}");
    assert!(
        line.contains("X-Plex-Session-Identifier=encoder-one"),
        "{line}",
    );
    assert_eq!(
        line,
        "/video/:/transcode/universal/stop?session=encoder-one&closeResourceSession=1\
         &X-Plex-Session-Identifier=encoder-one&X-Plex-Client-Identifier=cid&X-Plex-Token=tok"
    );
    assert_eq!(request.method, Method::Get);

    let physical = client.transcode_stop_physical("encoder-one").path;
    assert_eq!(
        physical.replace("closeResourceSession=0", "closeResourceSession=1"),
        line
    );
    assert_ne!(physical, line);
    assert_eq!(
        client.transcode_stop_query("s", false),
        "/video/:/transcode/universal/stop?session=s&closeResourceSession=0\
         &X-Plex-Session-Identifier=s&X-Plex-Client-Identifier=cid"
    );
}

#[test]
fn resource_close_is_posted_and_accepts_only_terminated_or_absent() {
    let client = Client::new(Origin::http("127.0.0.1", 32400), "tok", "cid");
    assert_eq!(Client::transcode_resource_reconciled(Some(200)), Some(true));
    assert_eq!(Client::transcode_resource_reconciled(Some(404)), Some(true));
    assert_eq!(Client::transcode_resource_reconciled(Some(500)), None);
    assert_eq!(Client::transcode_resource_reconciled(Some(204)), Some(true));
    assert_eq!(Client::transcode_resource_reconciled(Some(403)), None);
    assert_eq!(Client::transcode_resource_reconciled(None), None);

    for expected in ["resource-one", "resource-two", "resource-three"] {
        let request = client.resource_close(expected);
        assert_eq!(request.method, Method::Post);
        assert!(
            request.path.starts_with("/status/sessions/close?"),
            "{}",
            request.path
        );
        assert!(
            request
                .path
                .contains(&format!("X-Plex-Session-Identifier={expected}")),
            "{}",
            request.path
        );
    }
}

// ---- the link policy ------------------------------------------------------------------------

#[test]
fn a_relay_link_forbids_both_flavors_that_ship_the_file_at_its_own_rate() {
    let p = link_policy(Some(Location::Relay));
    assert!(!p.direct_play, "a relay cannot carry the source file");
    assert!(
        !p.remux,
        "a remux is the same bytes at the same rate, one layer down"
    );
}

#[test]
fn every_other_tier_and_an_unknown_link_leave_playback_alone() {
    for l in [Some(Location::Local), Some(Location::Remote), None] {
        assert_eq!(
            link_policy(l),
            LinkPolicy::unrestricted(),
            "link {l:?} must restrict nothing"
        );
    }
}

#[test]
fn an_unrestricted_link_allows_both_flavors() {
    assert_eq!(
        LinkPolicy::unrestricted(),
        LinkPolicy {
            direct_play: true,
            remux: true
        }
    );
}

// ---- the capability profile -----------------------------------------------------------------

fn list_of(segment: &str, key: &str) -> Vec<String> {
    let v = segment
        .split(key)
        .nth(1)
        .expect(key)
        .split('&')
        .next()
        .unwrap_or("");
    v.trim_end_matches(')')
        .split(',')
        .map(str::to_string)
        .collect()
}

fn target_of(p: &str) -> &str {
    p.split("add-transcode-target")
        .nth(1)
        .expect("profile declares a transcode target")
}

#[test]
fn the_transcode_target_never_strands_a_server_without_plex_pass() {
    let p = profile_extra(&mut Snapshot::new(), TranscodeDelivery::ProgressiveMkv);
    let target = target_of(&p);
    let video = list_of(target, "videoCodec=");
    assert!(
        video.contains(&"h264".to_string()),
        "no subscription-free video fallback in {video:?} — a free server drops the video track"
    );
    assert_eq!(
        video.first().map(String::as_str),
        Some("hevc"),
        "hevc must stay FIRST: order is preference, and hevc is what keeps 4K+HDR10 through a re-encode"
    );
    for c in DP_AUDIO_CODECS.split(',') {
        if c == "dca" {
            assert!(
                !list_of(target, "audioCodec=").contains(&c.to_string()),
                "dca must not be an encode target"
            );
            continue;
        }
        assert!(
            list_of(target, "audioCodec=").contains(&c.to_string()),
            "{c} is direct-playable but absent from the target — the server would re-encode a track we decode natively"
        );
    }
}

#[test]
fn a_soc_without_hevc_gets_an_h264_only_profile_at_its_own_bound() {
    let caps = Caps {
        hevc: false,
        hevc_max: (1920, 1088),
        h264_row: (0, 0, 0),
        hevc_row: (0, 0, 0),
        vp9: false,
        audio: "aac,ac3,eac3".into(),
    };
    let p = profile_for(&caps);
    assert!(!p.contains("hevc"), "hevc must not appear anywhere in {p}");
    let dp = p.split("add-transcode-target").next().unwrap();
    assert_eq!(list_of(dp, "videoCodec="), ["h264"]);
    assert_eq!(list_of(target_of(&p), "videoCodec="), ["h264"]);
    assert!(
        p.contains("name=video.width&value=1920&") && p.contains("name=video.height&value=1088&"),
        "the upper bounds must be the device table's, or PMS direct-plays 4K onto a 1080p decoder: {p}"
    );
}

#[test]
fn the_target_head_is_the_shared_encode_vcodec_definition() {
    for caps in [
        Caps::assumed(),
        Caps {
            hevc: false,
            hevc_max: (1920, 1088),
            h264_row: (0, 0, 0),
            hevc_row: (0, 0, 0),
            vp9: false,
            audio: "aac".into(),
        },
    ] {
        let p = profile_for(&caps);
        let video = list_of(target_of(&p), "videoCodec=");
        assert_eq!(
            video.first().map(String::as_str),
            Some(caps.encode_vcodec())
        );
    }
}

#[test]
fn the_audio_lists_are_the_caps_subset_in_both_profiles() {
    let caps = Caps {
        hevc: true,
        hevc_max: (3840, 2176),
        h264_row: (0, 0, 0),
        hevc_row: (0, 0, 0),
        vp9: true,
        audio: "aac".into(),
    };
    let p = profile_for(&caps);
    let dp = p.split("add-transcode-target").next().unwrap();
    assert_eq!(list_of(dp, "audioCodec="), ["aac"]);
    assert_eq!(list_of(target_of(&p), "audioCodec="), ["aac"]);
}

#[test]
fn the_assumed_profile_is_byte_identical_to_the_shipped_one() {
    assert_eq!(
        profile_for(&Caps::assumed()),
        "add-direct-play-profile(type=videoProfile&container=mkv,mp4&videoCodec=h264,hevc\
         &audioCodec=aac,ac3,eac3,dca&subtitleCodec=srt,subrip,ass,ssa)\
         +add-limitation(scope=videoCodec&scopeName=*&type=upperBound&name=video.width&value=3840&replace=true)\
         +add-limitation(scope=videoCodec&scopeName=*&type=upperBound&name=video.height&value=2176&replace=true)\
         +add-limitation(scope=videoCodec&scopeName=*&type=upperBound&name=video.bitDepth&value=10&replace=true)\
         +add-transcode-target(type=videoProfile&context=streaming&protocol=http\
         &container=matroska&videoCodec=hevc,h264&audioCodec=ac3,eac3,aac)"
    );
}

#[test]
fn a_set_that_decodes_dts_alone_has_nothing_to_encode_to() {
    let caps = Caps {
        audio: "dca".into(),
        ..Caps::assumed()
    };
    assert_eq!(list_of(target_of(&profile_for(&caps)), "audioCodec="), [""]);
}

#[test]
fn the_profile_of_the_device_is_that_of_its_snapshot() {
    let mut snapshot = Snapshot::new();
    snapshot.publish(&probe(&TableRead::Unparseable));
    let delivery = TranscodeDelivery::FixedHls {
        seconds_per_segment: 2,
    };
    assert_eq!(
        profile_extra(&mut snapshot, delivery),
        profile_for_delivery(&Caps::assumed(), delivery)
    );
    assert!(!snapshot.measured());
}

// ---- audio that plays directly --------------------------------------------------------------

#[test]
fn every_spelling_of_dts_has_one_key() {
    for codec in ["dts", "dca", "dca-ma", "dca-hra", "dca-"] {
        assert_eq!(dp_audio_key(codec), "dca");
        assert_eq!(dp_audio_key(dp_audio_key(codec)), "dca");
    }
    for codec in ["aac", "dtshd", "dcax", "truehd", ""] {
        assert_eq!(dp_audio_key(codec), codec);
    }
}

#[test]
fn the_gate_and_the_claim_agree() {
    let caps = Caps {
        audio: "aac,dca".into(),
        ..Caps::assumed()
    };
    for (codec, plays) in [
        ("aac", true),
        ("dts", true),
        ("dca-ma", true),
        ("ac3", false),
        ("eac3", false),
        ("truehd", false),
    ] {
        assert_eq!(is_dp_audio(&caps, codec), plays, "{codec}");
    }
    let profile = profile_for(&caps);
    assert_eq!(list_of(&profile, "audioCodec="), ["aac", "dca"]);
}

// ---- addresses ------------------------------------------------------------------------------

#[test]
fn an_address_is_one_url() {
    let secure = StreamUrl {
        origin: Origin {
            https: true,
            host: "media.example.net".to_string(),
            port: 443,
        },
        path: "/a?b=c".to_string(),
    };
    assert_eq!(secure.to_url(), "https://media.example.net:443/a?b=c");
}

#[test]
fn a_token_joins_a_query_or_begins_one() {
    let client = Client::new(Origin::http("10.0.0.1", 32400), "t&k", "cid");
    assert_eq!(client.with_token("/a"), "/a?X-Plex-Token=t%26k");
    assert_eq!(client.with_token("/a?b=c"), "/a?b=c&X-Plex-Token=t%26k");
    assert_eq!(client.client_id(), "cid");
    assert_eq!(client.origin().host, "10.0.0.1");
}
