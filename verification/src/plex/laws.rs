//! What holds of every transcode session and of every profile.
use vstd::prelude::*;

use crate::devcaps::CapsView;
use crate::plex::client::ClientView;
use crate::plex::params::{resolution_text, Ceiling, TranscodeDelivery, TranscodeSpec};
use crate::plex::query::{law_query_holds_its_parameters, param_texts, rendered};
use crate::plex::transcoder::{
    audio_key, audio_params, decision_path, direct_video, encodable_audio, flavor_params,
    offset_params, profile_params, session_params, source_params, start_path, stop_params,
    stream_params, target_audio, target_video, transcode_params,
};
use crate::text::{decimal, has_prefix, lemma_filter_contents, split_on};

verus! {

/// The values that a query carries under one key, in order.
pub open spec fn values(params: Seq<(Seq<char>, Seq<char>)>, key: Seq<char>) -> Seq<Seq<char>>
    decreases params.len(),
{
    if params.len() == 0 {
        Seq::empty()
    } else {
        let before = values(params.drop_last(), key);
        if params.last().0 == key {
            before.push(params.last().1)
        } else {
            before
        }
    }
}

/// The values of two groups of parameters are those of the one, then those of the other.
pub proof fn lemma_values_of_sum(
    a: Seq<(Seq<char>, Seq<char>)>,
    b: Seq<(Seq<char>, Seq<char>)>,
    key: Seq<char>,
)
    ensures
        values(a + b, key) == values(a, key) + values(b, key),
    decreases b.len(),
{
    if b.len() == 0 {
        assert(a + b =~= a);
        assert(values(a + b, key) =~= values(a, key) + values(b, key));
    } else {
        lemma_values_of_sum(a, b.drop_last(), key);
        assert((a + b).drop_last() =~= a + b.drop_last());
        assert(values(a + b, key) =~= values(a, key) + values(b, key));
    }
}

/// A key that no parameter has, has no value.
pub proof fn lemma_values_absent(params: Seq<(Seq<char>, Seq<char>)>, key: Seq<char>)
    requires
        forall|i: int| 0 <= i < params.len() ==> (#[trigger] params[i]).0 != key,
    ensures
        values(params, key) == Seq::<Seq<char>>::empty(),
    decreases params.len(),
{
    if params.len() > 0 {
        assert(forall|i: int| 0 <= i < params.len() - 1 ==> params.drop_last()[i] == params[i]);
        lemma_values_absent(params.drop_last(), key);
        assert(params.last() == params[params.len() - 1]);
    }
}

/// A key that one parameter has, has that one's value.
pub proof fn lemma_values_once(params: Seq<(Seq<char>, Seq<char>)>, key: Seq<char>, at: int)
    requires
        0 <= at < params.len(),
        params[at].0 == key,
        forall|i: int| 0 <= i < params.len() && i != at ==> (#[trigger] params[i]).0 != key,
    ensures
        values(params, key) == seq![params[at].1],
    decreases params.len(),
{
    let before = params.drop_last();
    assert(forall|i: int| 0 <= i < params.len() - 1 ==> before[i] == params[i]);
    assert(params.last() == params[params.len() - 1]);
    if at == params.len() - 1 {
        lemma_values_absent(before, key);
        assert(values(params, key) =~= seq![params[at].1]);
    } else {
        lemma_values_once(before, key, at);
    }
}

/// The keys of a transcode query are told apart by their length, their first character and their
/// sixth.
pub proof fn lemma_keys()
    ensures
        "path"@.len() == 4 && "path"@[0] == 'p',
        "mediaIndex"@.len() == 10 && "mediaIndex"@[0] == 'm' && "mediaIndex"@[5] == 'I',
        "partIndex"@.len() == 9 && "partIndex"@[0] == 'p' && "partIndex"@[5] == 'n',
        "protocol"@.len() == 8 && "protocol"@[0] == 'p' && "protocol"@[5] == 'c',
        "directPlay"@.len() == 10 && "directPlay"@[0] == 'd' && "directPlay"@[5] == 't',
        "directStream"@.len() == 12 && "directStream"@[0] == 'd' && "directStream"@[5] == 't',
        "videoResolution"@.len() == 15 && "videoResolution"@[0] == 'v'
            && "videoResolution"@[5] == 'R',
        "maxVideoBitrate"@.len() == 15 && "maxVideoBitrate"@[0] == 'm'
            && "maxVideoBitrate"@[5] == 'd',
        "videoBitrate"@.len() == 12 && "videoBitrate"@[0] == 'v' && "videoBitrate"@[5] == 'B',
        "peakBitrate"@.len() == 11 && "peakBitrate"@[0] == 'p' && "peakBitrate"@[5] == 'i',
        "autoAdjustQuality"@.len() == 17 && "autoAdjustQuality"@[0] == 'a'
            && "autoAdjustQuality"@[5] == 'd',
        "secondsPerSegment"@.len() == 17 && "secondsPerSegment"@[0] == 's'
            && "secondsPerSegment"@[5] == 'd',
        "videoQuality"@.len() == 12 && "videoQuality"@[0] == 'v' && "videoQuality"@[5] == 'Q',
        "mediaBufferSize"@.len() == 15 && "mediaBufferSize"@[0] == 'm'
            && "mediaBufferSize"@[5] == 'B',
        "fastSeek"@.len() == 8 && "fastSeek"@[0] == 'f' && "fastSeek"@[5] == 'e',
        "directStreamAudio"@.len() == 17 && "directStreamAudio"@[0] == 'd'
            && "directStreamAudio"@[5] == 't',
        "audioStreamID"@.len() == 13 && "audioStreamID"@[0] == 'a' && "audioStreamID"@[5] == 'S',
        "subtitleStreamID"@.len() == 16 && "subtitleStreamID"@[0] == 's'
            && "subtitleStreamID"@[5] == 't',
        "subtitleSize"@.len() == 12 && "subtitleSize"@[0] == 's' && "subtitleSize"@[5] == 't',
        "subtitles"@.len() == 9 && "subtitles"@[0] == 's' && "subtitles"@[5] == 't',
        "session"@.len() == 7 && "session"@[0] == 's' && "session"@[5] == 'o',
        "X-Plex-Session-Identifier"@.len() == 25 && "X-Plex-Session-Identifier"@[0] == 'X'
            && "X-Plex-Session-Identifier"@[5] == 'x',
        "X-Plex-Client-Profile-Name"@.len() == 26 && "X-Plex-Client-Profile-Name"@[0] == 'X'
            && "X-Plex-Client-Profile-Name"@[5] == 'x',
        "X-Plex-Client-Profile-Extra"@.len() == 27 && "X-Plex-Client-Profile-Extra"@[0] == 'X'
            && "X-Plex-Client-Profile-Extra"@[5] == 'x',
        "offset"@.len() == 6 && "offset"@[0] == 'o' && "offset"@[5] == 't',
{
    reveal_strlit("path");
    reveal_strlit("mediaIndex");
    reveal_strlit("partIndex");
    reveal_strlit("protocol");
    reveal_strlit("directPlay");
    reveal_strlit("directStream");
    reveal_strlit("videoResolution");
    reveal_strlit("maxVideoBitrate");
    reveal_strlit("videoBitrate");
    reveal_strlit("peakBitrate");
    reveal_strlit("autoAdjustQuality");
    reveal_strlit("secondsPerSegment");
    reveal_strlit("videoQuality");
    reveal_strlit("mediaBufferSize");
    reveal_strlit("fastSeek");
    reveal_strlit("directStreamAudio");
    reveal_strlit("audioStreamID");
    reveal_strlit("subtitleStreamID");
    reveal_strlit("subtitleSize");
    reveal_strlit("subtitles");
    reveal_strlit("session");
    reveal_strlit("X-Plex-Session-Identifier");
    reveal_strlit("X-Plex-Client-Profile-Name");
    reveal_strlit("X-Plex-Client-Profile-Extra");
    reveal_strlit("offset");
}

/// The values of a session's key are those of its groups, one after the other.
pub proof fn lemma_values_of_session(
    client: ClientView,
    caps: CapsView,
    s: TranscodeSpec<'_>,
    key: Seq<char>,
)
    ensures
        values(transcode_params(client, caps, s), key) == values(source_params(s), key) + values(
            flavor_params(s),
            key,
        ) + values(audio_params(s), key) + values(stream_params(s), key) + values(
            session_params(s),
            key,
        ) + values(client.identity, key) + values(profile_params(caps, s.delivery), key) + values(
            offset_params(s.offset),
            key,
        ),
{
    let a = source_params(s) + flavor_params(s);
    let b = a + audio_params(s);
    let c = b + stream_params(s);
    let d = c + session_params(s);
    let e = d + client.identity;
    let f = e + profile_params(caps, s.delivery);
    lemma_values_of_sum(source_params(s), flavor_params(s), key);
    lemma_values_of_sum(a, audio_params(s), key);
    lemma_values_of_sum(b, stream_params(s), key);
    lemma_values_of_sum(c, session_params(s), key);
    lemma_values_of_sum(d, client.identity, key);
    lemma_values_of_sum(e, profile_params(caps, s.delivery), key);
    lemma_values_of_sum(f, offset_params(s.offset), key);
}

/// The client's own parameters do not use a key of the session's.
pub open spec fn leaves_alone(client: ClientView, key: Seq<char>) -> bool {
    values(client.identity, key).len() == 0
}

/// A key that neither the streams, the sessions, the profile nor the offset use: its values are
/// the source's, the flavor's and the audio's.
proof fn lemma_values_of_flavor(
    client: ClientView,
    caps: CapsView,
    s: TranscodeSpec<'_>,
    key: Seq<char>,
)
    requires
        leaves_alone(client, key),
        key == "protocol"@ || key == "directStream"@ || key == "videoResolution"@ || key
            == "maxVideoBitrate"@ || key == "videoBitrate"@ || key == "peakBitrate"@ || key
            == "autoAdjustQuality"@ || key == "secondsPerSegment"@ || key
            == "directStreamAudio"@,
    ensures
        values(transcode_params(client, caps, s), key) == values(source_params(s), key) + values(
            flavor_params(s),
            key,
        ) + values(audio_params(s), key),
{
    lemma_keys();
    lemma_values_of_session(client, caps, s, key);
    lemma_values_absent(stream_params(s), key);
    lemma_values_absent(session_params(s), key);
    lemma_values_absent(profile_params(caps, s.delivery), key);
    lemma_values_absent(offset_params(s.offset), key);
    assert(values(transcode_params(client, caps, s), key) =~= values(source_params(s), key)
        + values(flavor_params(s), key) + values(audio_params(s), key));
}

/// The values of a key that only the flavor uses.
proof fn lemma_values_of_flavor_alone(
    client: ClientView,
    caps: CapsView,
    s: TranscodeSpec<'_>,
    key: Seq<char>,
)
    requires
        leaves_alone(client, key),
        key == "videoResolution"@ || key == "maxVideoBitrate"@ || key == "videoBitrate"@ || key
            == "peakBitrate"@ || key == "autoAdjustQuality"@ || key == "secondsPerSegment"@,
    ensures
        values(transcode_params(client, caps, s), key) == values(flavor_params(s), key),
{
    lemma_keys();
    lemma_values_of_flavor(client, caps, s, key);
    lemma_values_absent(source_params(s), key);
    lemma_values_absent(audio_params(s), key);
    assert(values(transcode_params(client, caps, s), key) =~= values(flavor_params(s), key));
}

// ---- who may copy ---------------------------------------------------------------------------
/// A session says exactly once whether the video may be copied.
pub proof fn law_one_copy_permission(client: ClientView, caps: CapsView, s: TranscodeSpec<'_>)
    requires
        leaves_alone(client, "directStream"@),
    ensures
        values(transcode_params(client, caps, s), "directStream"@) == seq![
            decimal(
                if s.copy_allowed() {
                    1
                } else {
                    0
                },
            ),
        ],
{
    let key = "directStream"@;
    lemma_keys();
    lemma_values_of_flavor(client, caps, s, key);
    lemma_values_once(source_params(s), key, 5);
    lemma_values_absent(flavor_params(s), key);
    lemma_values_absent(audio_params(s), key);
    assert(values(transcode_params(client, caps, s), key) =~= values(source_params(s), key));
}

/// A source that is refused for its pixels is not copied, while its audio may be.
pub proof fn law_pixel_refusal_keeps_the_audio_copy(
    client: ClientView,
    caps: CapsView,
    s: TranscodeSpec<'_>,
)
    requires
        s.no_video_copy,
        !s.remux,
        !s.is_hls(),
        leaves_alone(client, "directStream"@),
        leaves_alone(client, "directStreamAudio"@),
    ensures
        values(transcode_params(client, caps, s), "directStream"@) == seq![decimal(0)],
        values(transcode_params(client, caps, s), "directStreamAudio"@) == seq![decimal(1)],
{
    let key = "directStreamAudio"@;
    law_one_copy_permission(client, caps, s);
    lemma_keys();
    lemma_values_of_flavor(client, caps, s, key);
    lemma_values_absent(source_params(s), key);
    lemma_values_absent(flavor_params(s), key);
    lemma_values_once(audio_params(s), key, 0);
    assert(values(transcode_params(client, caps, s), key) =~= values(audio_params(s), key));
}

// ---- the ceiling ----------------------------------------------------------------------------
/// A remux is a copy: it carries no cap, and neither a refusal of its pixels nor a ceiling changes
/// its query.
pub proof fn law_remux_is_a_copy(
    client: ClientView,
    caps: CapsView,
    s: TranscodeSpec<'_>,
    no_video_copy: bool,
    ceiling: Option<Ceiling>,
)
    requires
        s.remux,
        !s.is_hls(),
        leaves_alone(client, "directStream"@),
        leaves_alone(client, "videoResolution"@),
        leaves_alone(client, "maxVideoBitrate"@),
    ensures
        transcode_params(client, caps, TranscodeSpec { no_video_copy, ceiling, ..s })
            == transcode_params(client, caps, s),
        values(transcode_params(client, caps, s), "directStream"@) == seq![decimal(1)],
        values(transcode_params(client, caps, s), "videoResolution"@).len() == 0,
        values(transcode_params(client, caps, s), "maxVideoBitrate"@).len() == 0,
{
    law_one_copy_permission(client, caps, s);
    lemma_keys();
    lemma_values_of_flavor_alone(client, caps, s, "videoResolution"@);
    lemma_values_of_flavor_alone(client, caps, s, "maxVideoBitrate"@);
    lemma_values_absent(flavor_params(s), "videoResolution"@);
    lemma_values_absent(flavor_params(s), "maxVideoBitrate"@);
}

/// A re-encode carries its ceiling, each axis exactly once. One that chose none carries the native
/// one.
pub proof fn law_reencode_carries_its_ceiling(
    client: ClientView,
    caps: CapsView,
    s: TranscodeSpec<'_>,
)
    requires
        !s.remux,
        leaves_alone(client, "videoResolution"@),
        leaves_alone(client, "maxVideoBitrate"@),
    ensures
        values(transcode_params(client, caps, s), "videoResolution"@) == seq![
            resolution_text(s.bound().max_w as int, s.bound().max_h as int),
        ],
        values(transcode_params(client, caps, s), "maxVideoBitrate"@) == seq![
            decimal(s.bound().max_kbps as int),
        ],
        s.ceiling is None ==> transcode_params(client, caps, s) == transcode_params(
            client,
            caps,
            TranscodeSpec { ceiling: Some(Ceiling::native()), ..s },
        ),
{
    lemma_keys();
    lemma_values_of_flavor_alone(client, caps, s, "videoResolution"@);
    lemma_values_of_flavor_alone(client, caps, s, "maxVideoBitrate"@);
    lemma_values_once(flavor_params(s), "videoResolution"@, 0);
    lemma_values_once(flavor_params(s), "maxVideoBitrate"@, 1);
}

/// Under a progressive delivery the ceiling changes those two parameters and nothing else.
pub proof fn law_ceiling_changes_its_two_parameters_alone(
    client: ClientView,
    caps: CapsView,
    s: TranscodeSpec<'_>,
    ceiling: Option<Ceiling>,
)
    requires
        !s.is_hls(),
    ensures
        ({
            let a = transcode_params(client, caps, s);
            let b = transcode_params(client, caps, TranscodeSpec { ceiling, ..s });
            &&& a.len() == b.len()
            &&& forall|i: int|
                0 <= i < a.len() ==> (#[trigger] a[i]).0 == b[i].0 && (a[i].0
                    != "videoResolution"@ && a[i].0 != "maxVideoBitrate"@ ==> a[i] == b[i])
        }),
{
    let t = TranscodeSpec { ceiling, ..s };
    let rest = |u: TranscodeSpec<'_>|
        audio_params(u) + stream_params(u) + session_params(u) + client.identity + profile_params(
            caps,
            u.delivery,
        ) + offset_params(u.offset);
    let a = transcode_params(client, caps, s);
    let b = transcode_params(client, caps, t);
    assert(a =~= source_params(s) + flavor_params(s) + rest(s));
    assert(b =~= source_params(t) + flavor_params(t) + rest(t));
    assert(source_params(s) =~= source_params(t));
    assert(rest(s) == rest(t));
    assert(flavor_params(s).len() == flavor_params(t).len());
}

// ---- a segmented delivery -------------------------------------------------------------------
/// A segmented delivery is one coherent contract: the protocol, the permissions, the fixed rate,
/// the target of the profile and the endpoint all speak of one encoded rendition.
pub proof fn law_fixed_hls_is_coherent(
    client: ClientView,
    caps: CapsView,
    s: TranscodeSpec<'_>,
    seconds_per_segment: u32,
)
    requires
        s.delivery == (TranscodeDelivery::FixedHls { seconds_per_segment }),
        s.is_coherent(),
        leaves_alone(client, "protocol"@),
        leaves_alone(client, "directStream"@),
        leaves_alone(client, "directStreamAudio"@),
        leaves_alone(client, "maxVideoBitrate"@),
        leaves_alone(client, "videoResolution"@),
        leaves_alone(client, "videoBitrate"@),
        leaves_alone(client, "peakBitrate"@),
        leaves_alone(client, "autoAdjustQuality"@),
        leaves_alone(client, "secondsPerSegment"@),
    ensures
        ({
            let params = transcode_params(client, caps, s);
            let kbps = decimal(s.bound().max_kbps as int);
            &&& values(params, "protocol"@) == seq!["hls"@]
            &&& values(params, "directStream"@) == seq![decimal(0)]
            &&& values(params, "directStreamAudio"@) == seq![decimal(0)]
            &&& values(params, "maxVideoBitrate"@) == seq![kbps]
            &&& values(params, "videoBitrate"@) == seq![kbps]
            &&& values(params, "peakBitrate"@) == seq![kbps]
            &&& values(params, "autoAdjustQuality"@) == seq![decimal(0)]
            &&& values(params, "secondsPerSegment"@) == seq![decimal(seconds_per_segment as int)]
        }),
        target_video(caps, s.delivery) == seq!["h264"@],
        target_audio(caps, s.delivery) == seq!["aac"@],
        has_prefix(
            start_path(client, caps, s),
            "/video/:/transcode/universal/"@ + "start.m3u8"@ + "?"@,
        ),
{
    let params = transcode_params(client, caps, s);
    let flavor = flavor_params(s);
    lemma_keys();
    law_one_copy_permission(client, caps, s);
    law_reencode_carries_its_ceiling(client, caps, s);

    lemma_values_of_flavor(client, caps, s, "protocol"@);
    lemma_values_once(source_params(s), "protocol"@, 3);
    lemma_values_absent(flavor, "protocol"@);
    lemma_values_absent(audio_params(s), "protocol"@);
    assert(values(params, "protocol"@) =~= seq!["hls"@]);

    lemma_values_of_flavor(client, caps, s, "directStreamAudio"@);
    lemma_values_absent(source_params(s), "directStreamAudio"@);
    lemma_values_absent(flavor, "directStreamAudio"@);
    lemma_values_once(audio_params(s), "directStreamAudio"@, 0);
    assert(values(params, "directStreamAudio"@) =~= seq![decimal(0)]);

    lemma_values_of_flavor_alone(client, caps, s, "videoBitrate"@);
    lemma_values_once(flavor, "videoBitrate"@, 2);
    lemma_values_of_flavor_alone(client, caps, s, "peakBitrate"@);
    lemma_values_once(flavor, "peakBitrate"@, 3);
    lemma_values_of_flavor_alone(client, caps, s, "autoAdjustQuality"@);
    lemma_values_once(flavor, "autoAdjustQuality"@, 4);
    lemma_values_of_flavor_alone(client, caps, s, "secondsPerSegment"@);
    lemma_values_once(flavor, "secondsPerSegment"@, 5);

    let head = "/video/:/transcode/universal/"@ + "start.m3u8"@ + "?"@;
    assert(start_path(client, caps, s).take(head.len() as int) =~= head);
}

// ---- sessions -------------------------------------------------------------------------------
/// The encoder's identity and the playback's go out each under its own key, and each exactly once.
pub proof fn law_session_identities_stay_apart(
    client: ClientView,
    caps: CapsView,
    s: TranscodeSpec<'_>,
)
    requires
        leaves_alone(client, "session"@),
        leaves_alone(client, "X-Plex-Session-Identifier"@),
    ensures
        values(transcode_params(client, caps, s), "session"@) == seq![s.encoder_session@],
        values(transcode_params(client, caps, s), "X-Plex-Session-Identifier"@) == seq![
            s.session@,
        ],
{
    lemma_keys();
    lemma_session_value(client, caps, s, "session"@, 0);
    lemma_session_value(client, caps, s, "X-Plex-Session-Identifier"@, 1);
}

proof fn lemma_session_value(
    client: ClientView,
    caps: CapsView,
    s: TranscodeSpec<'_>,
    key: Seq<char>,
    at: int,
)
    requires
        leaves_alone(client, key),
        key == "session"@ && at == 0 || key == "X-Plex-Session-Identifier"@ && at == 1,
    ensures
        values(transcode_params(client, caps, s), key) == seq![session_params(s)[at].1],
{
    lemma_keys();
    lemma_values_of_session(client, caps, s, key);
    lemma_values_absent(source_params(s), key);
    lemma_values_absent(flavor_params(s), key);
    lemma_values_absent(audio_params(s), key);
    lemma_values_absent(stream_params(s), key);
    lemma_values_once(session_params(s), key, at);
    lemma_values_absent(profile_params(caps, s.delivery), key);
    lemma_values_absent(offset_params(s.offset), key);
    assert(values(transcode_params(client, caps, s), key) =~= seq![session_params(s)[at].1]);
}

/// The decision that registers a session and the stream that is read from it carry the same query.
pub proof fn law_decision_and_stream_agree(
    client: ClientView,
    caps: CapsView,
    s: TranscodeSpec<'_>,
)
    ensures
        ({
            let query = rendered(transcode_params(client, caps, s));
            let decision = decision_path(client, caps, s);
            let start = start_path(client, caps, s);
            &&& decision == "/video/:/transcode/universal/decision?"@ + query
            &&& query.len() <= start.len()
            &&& start.skip(start.len() - query.len()) == query
            &&& decision.skip(decision.len() - query.len()) == query
        }),
{
    let query = rendered(transcode_params(client, caps, s));
    let decision = decision_path(client, caps, s);
    let start = start_path(client, caps, s);
    assert(start.skip(start.len() - query.len()) =~= query);
    assert(decision.skip(decision.len() - query.len()) =~= query);
}

/// No key of a session's own parameters holds an ampersand.
proof fn lemma_keys_hold_no_ampersand(caps: CapsView, s: TranscodeSpec<'_>)
    ensures
        ({
            let own = source_params(s) + flavor_params(s) + audio_params(s) + stream_params(s)
                + session_params(s) + profile_params(caps, s.delivery) + offset_params(s.offset);
            forall|i: int| 0 <= i < own.len() ==> !(#[trigger] own[i]).0.contains('&')
        }),
{
    reveal_strlit("path");
    reveal_strlit("mediaIndex");
    reveal_strlit("partIndex");
    reveal_strlit("protocol");
    reveal_strlit("directPlay");
    reveal_strlit("directStream");
    reveal_strlit("videoResolution");
    reveal_strlit("maxVideoBitrate");
    reveal_strlit("videoBitrate");
    reveal_strlit("peakBitrate");
    reveal_strlit("autoAdjustQuality");
    reveal_strlit("secondsPerSegment");
    reveal_strlit("videoQuality");
    reveal_strlit("mediaBufferSize");
    reveal_strlit("fastSeek");
    reveal_strlit("directStreamAudio");
    reveal_strlit("audioStreamID");
    reveal_strlit("subtitleStreamID");
    reveal_strlit("subtitleSize");
    reveal_strlit("subtitles");
    reveal_strlit("session");
    reveal_strlit("X-Plex-Session-Identifier");
    reveal_strlit("X-Plex-Client-Profile-Name");
    reveal_strlit("X-Plex-Client-Profile-Extra");
    reveal_strlit("offset");
}

/// What goes over the wire is the session's parameters and nothing else: splitting its query at
/// the ampersands gives each of them back, whatever the item, the sessions and the profile hold.
pub proof fn law_session_query_holds_its_parameters(
    client: ClientView,
    caps: CapsView,
    s: TranscodeSpec<'_>,
)
    requires
        forall|i: int|
            0 <= i < client.identity.len() ==> !(
            #[trigger] client.identity[i]).0.contains('&'),
    ensures
        split_on(rendered(transcode_params(client, caps, s)), '&') == param_texts(
            transcode_params(client, caps, s),
        ),
{
    let params = transcode_params(client, caps, s);
    let before = source_params(s) + flavor_params(s) + audio_params(s) + stream_params(s)
        + session_params(s);
    let after = profile_params(caps, s.delivery) + offset_params(s.offset);
    let own = before + profile_params(caps, s.delivery) + offset_params(s.offset);
    lemma_keys_hold_no_ampersand(caps, s);
    assert(own =~= before + after);
    assert(params =~= before + client.identity + after);
    assert forall|i: int| 0 <= i < params.len() implies !(#[trigger] params[i]).0.contains('&') by {
        if i < before.len() {
            assert(params[i] == own[i]);
        } else if i < before.len() + client.identity.len() {
            assert(params[i] == client.identity[i - before.len()]);
        } else {
            assert(params[i] == own[i - client.identity.len()]);
        }
    }
    law_query_holds_its_parameters(params);
}

// ---- the profile ----------------------------------------------------------------------------
/// A profile never leaves a server without a codec that it can encode to: H.264 is always among
/// the targets. The first target of a progressive delivery is the one encode target that the rest
/// of playback goes by.
pub proof fn law_target_ends_in_h264(caps: CapsView, delivery: TranscodeDelivery)
    ensures
        target_video(caps, delivery).len() > 0,
        target_video(caps, delivery).last() == "h264"@,
        delivery is ProgressiveMkv ==> target_video(caps, delivery)[0] == caps.encode_target(),
        direct_video(caps).contains("h264"@),
{
    assert(direct_video(caps)[0] == "h264"@);
}

/// A set that does not decode HEVC is never sent any: it is neither among what plays directly nor
/// among what a transcode may produce.
pub proof fn law_no_hevc_for_a_set_without_it(caps: CapsView, delivery: TranscodeDelivery)
    requires
        !caps.hevc,
    ensures
        direct_video(caps) == seq!["h264"@],
        target_video(caps, delivery) == seq!["h264"@],
        !direct_video(caps).contains("hevc"@),
        !target_video(caps, delivery).contains("hevc"@),
{
    reveal_strlit("hevc");
    reveal_strlit("h264");
    assert("hevc"@[1] != "h264"@[1]);
}

/// A progressive transcode is offered exactly those encodable audio codecs that the set decodes,
/// the preferred one first. DTS is decoded, and never encoded to.
pub proof fn law_audio_targets_are_decoded(caps: CapsView, codec: Seq<char>)
    ensures
        target_audio(caps, TranscodeDelivery::ProgressiveMkv).contains(codec)
            <==> encodable_audio().contains(codec) && caps.has_audio(codec),
        caps.has_audio("ac3"@) ==> target_audio(caps, TranscodeDelivery::ProgressiveMkv)[0]
            == "ac3"@,
        !target_audio(caps, TranscodeDelivery::ProgressiveMkv).contains("dca"@),
{
    let keep = |c: Seq<char>| caps.has_audio(c);
    let targets = target_audio(caps, TranscodeDelivery::ProgressiveMkv);
    let all = encodable_audio();
    assert(targets =~= all.filter(keep));
    if caps.has_audio("ac3"@) {
        reveal(Seq::filter);
        assert(all.drop_last().drop_last() =~= seq!["ac3"@]);
        assert(all.drop_last().drop_last().drop_last() =~= Seq::empty());
        reveal_with_fuel(Seq::filter, 4);
    }
    lemma_filter_contents(encodable_audio(), keep);
    assert(encodable_audio().filter(keep).contains(codec) <==> encodable_audio().contains(codec)
        && keep(codec));
    reveal_strlit("dca");
    reveal_strlit("aac");
    reveal_strlit("ac3");
    reveal_strlit("eac3");
    assert("dca"@[0] == 'd' && "aac"@[0] == 'a' && "ac3"@[0] == 'a' && "eac3"@[0] == 'e');
    assert(!encodable_audio().contains("dca"@));
    assert(encodable_audio().filter(keep).contains("dca"@) ==> encodable_audio().contains("dca"@));
}

/// Looking a codec up by its key once is enough, and every spelling of the DTS family has one key.
pub proof fn law_audio_keys_stay(codec: Seq<char>)
    ensures
        audio_key(audio_key(codec)) == audio_key(codec),
        audio_key("dts"@) == "dca"@,
        audio_key("dca"@) == "dca"@,
        audio_key("dca-"@ + codec) == "dca"@,
{
    reveal_strlit("dca");
    reveal_strlit("dts");
    reveal_strlit("dca-");
    assert(("dca-"@ + codec).take(4) =~= "dca-"@);
}

/// A stop names its session under both identities, and says once whether the resource is closed
/// with the encoder.
pub proof fn law_stop_closes_its_exact_resource(
    client: ClientView,
    session: Seq<char>,
    close_resource: bool,
)
    ensures
        stop_params(client, session, close_resource)[0] == ("session"@, session),
        stop_params(client, session, close_resource)[2] == ("X-Plex-Session-Identifier"@, session),
        stop_params(client, session, close_resource)[1] == (
            "closeResourceSession"@,
            decimal(
                if close_resource {
                    1
                } else {
                    0
                },
            ),
        ),
        stop_params(client, session, close_resource)[3] == (
            "X-Plex-Client-Identifier"@,
            client.client_id,
        ),
        stop_params(client, session, close_resource).len() == 4,
{
}

} // verus!
