//! What every request says on the wire, key by key.
use vstd::prelude::*;

use crate::devcaps::CapsView;
use crate::plex::client::{ClientView, Origin};
use crate::plex::laws::{
    leaves_alone, lemma_keys, lemma_values_absent, lemma_values_of_session, lemma_values_of_sum,
    lemma_values_once, values,
};
use crate::plex::params::{
    resolution_text, seconds_text, Ceiling, TranscodeDelivery, TranscodeOffset, TranscodeSpec,
};
use crate::plex::query::{param_text, path_with_query, rendered};
use crate::plex::transcoder::{
    audio_key, audio_params, close_params, flavor_params, image_params, is_success, mde_params,
    offset_params, ping_params, plays_directly, present, profile_params, profile_text, reconciled,
    session_header, session_params, source_params, start_path, stop_params, stream_params,
    transcode_params,
};
use crate::text::{
    decimal, decimal_nat, encoded, has_prefix, joined, last_digits, law_split_undoes_join,
    split_on,
};
use crate::text_laws::{
    all_digits, law_decimal_reads_back, law_fixed_digits_read_back, number_read, ten_to,
};

verus! {

// ---- a session's parameters, key by key -----------------------------------------------------
/// Whether no parameter has this key.
pub open spec fn lacks(params: Seq<(Seq<char>, Seq<char>)>, key: Seq<char>) -> bool {
    forall|i: int| 0 <= i < params.len() ==> (#[trigger] params[i]).0 != key
}

/// The groups of a session's own parameters.
pub enum Group {
    Source,
    Flavor,
    Audio,
    Streams,
    Sessions,
    Profile,
    Offset,
}

/// The parameters of a group.
pub open spec fn group_params(
    caps: CapsView,
    s: TranscodeSpec<'_>,
    group: Group,
) -> Seq<(Seq<char>, Seq<char>)> {
    match group {
        Group::Source => source_params(s),
        Group::Flavor => flavor_params(s),
        Group::Audio => audio_params(s),
        Group::Streams => stream_params(s),
        Group::Sessions => session_params(s),
        Group::Profile => profile_params(caps, s.delivery),
        Group::Offset => offset_params(s.offset),
    }
}

/// A key that only one group uses has that group's values.
proof fn lemma_values_in_one_group(
    client: ClientView,
    caps: CapsView,
    s: TranscodeSpec<'_>,
    key: Seq<char>,
    group: Group,
)
    requires
        leaves_alone(client, key),
        group is Source || lacks(source_params(s), key),
        group is Flavor || lacks(flavor_params(s), key),
        group is Audio || lacks(audio_params(s), key),
        group is Streams || lacks(stream_params(s), key),
        group is Sessions || lacks(session_params(s), key),
        group is Profile || lacks(profile_params(caps, s.delivery), key),
        group is Offset || lacks(offset_params(s.offset), key),
    ensures
        values(transcode_params(client, caps, s), key) == values(
            group_params(caps, s, group),
            key,
        ),
{
    lemma_values_of_session(client, caps, s, key);
    if !(group is Source) {
        lemma_values_absent(source_params(s), key);
    }
    if !(group is Flavor) {
        lemma_values_absent(flavor_params(s), key);
    }
    if !(group is Audio) {
        lemma_values_absent(audio_params(s), key);
    }
    if !(group is Streams) {
        lemma_values_absent(stream_params(s), key);
    }
    if !(group is Sessions) {
        lemma_values_absent(session_params(s), key);
    }
    if !(group is Profile) {
        lemma_values_absent(profile_params(caps, s.delivery), key);
    }
    if !(group is Offset) {
        lemma_values_absent(offset_params(s.offset), key);
    }
    assert(values(transcode_params(client, caps, s), key) =~= values(
        group_params(caps, s, group),
        key,
    ));
}

/// The one value of a key that one group uses, at one place.
proof fn lemma_value_at(
    client: ClientView,
    caps: CapsView,
    s: TranscodeSpec<'_>,
    key: Seq<char>,
    group: Group,
    at: int,
)
    requires
        leaves_alone(client, key),
        group is Source || lacks(source_params(s), key),
        group is Flavor || lacks(flavor_params(s), key),
        group is Audio || lacks(audio_params(s), key),
        group is Streams || lacks(stream_params(s), key),
        group is Sessions || lacks(session_params(s), key),
        group is Profile || lacks(profile_params(caps, s.delivery), key),
        group is Offset || lacks(offset_params(s.offset), key),
        0 <= at < group_params(caps, s, group).len(),
        group_params(caps, s, group)[at].0 == key,
        forall|i: int|
            0 <= i < group_params(caps, s, group).len() && i != at ==> (
            #[trigger] group_params(caps, s, group)[i]).0 != key,
    ensures
        values(transcode_params(client, caps, s), key) == seq![group_params(caps, s, group)[at].1],
{
    lemma_values_in_one_group(client, caps, s, key, group);
    lemma_values_once(group_params(caps, s, group), key, at);
}

/// A key that no group uses has no value.
proof fn lemma_no_value(client: ClientView, caps: CapsView, s: TranscodeSpec<'_>, key: Seq<char>)
    requires
        leaves_alone(client, key),
        lacks(source_params(s), key),
        lacks(flavor_params(s), key),
        lacks(audio_params(s), key),
        lacks(stream_params(s), key),
        lacks(session_params(s), key),
        lacks(profile_params(caps, s.delivery), key),
        lacks(offset_params(s.offset), key),
    ensures
        values(transcode_params(client, caps, s), key) == Seq::<Seq<char>>::empty(),
{
    lemma_values_in_one_group(client, caps, s, key, Group::Source);
    lemma_values_absent(source_params(s), key);
}

/// Every session asks for its item, of its first medium and part, over the protocol of its
/// delivery, and never for direct play.
pub proof fn law_session_asks_for_its_item(client: ClientView, caps: CapsView, s: TranscodeSpec<'_>)
    requires
        leaves_alone(client, "path"@),
        leaves_alone(client, "mediaIndex"@),
        leaves_alone(client, "partIndex"@),
        leaves_alone(client, "protocol"@),
        leaves_alone(client, "directPlay"@),
    ensures
        ({
            let params = transcode_params(client, caps, s);
            &&& values(params, "path"@) == seq!["/library/metadata/"@ + s.rating_key@]
            &&& values(params, "mediaIndex"@) == seq![decimal(0)]
            &&& values(params, "partIndex"@) == seq![decimal(0)]
            &&& values(params, "directPlay"@) == seq![decimal(0)]
            &&& s.delivery is ProgressiveMkv ==> values(params, "protocol"@) == seq!["http"@]
            &&& s.delivery is FixedHls ==> values(params, "protocol"@) == seq!["hls"@]
        }),
{
    lemma_keys();
    lemma_value_at(client, caps, s, "path"@, Group::Source, 0);
    lemma_value_at(client, caps, s, "mediaIndex"@, Group::Source, 1);
    lemma_value_at(client, caps, s, "partIndex"@, Group::Source, 2);
    lemma_value_at(client, caps, s, "protocol"@, Group::Source, 3);
    lemma_value_at(client, caps, s, "directPlay"@, Group::Source, 4);
}

/// Who may copy, in every flavor. The video may be copied in a progressive delivery, unless its
/// pixels were refused and it is no remux. Of the audio a remux says that it may be copied, a
/// refused video that the audio still may, a segmented delivery that it may not, and any other
/// session says nothing.
pub proof fn law_copy_permissions(client: ClientView, caps: CapsView, s: TranscodeSpec<'_>)
    requires
        leaves_alone(client, "directStream"@),
        leaves_alone(client, "directStreamAudio"@),
    ensures
        ({
            let params = transcode_params(client, caps, s);
            let video = values(params, "directStream"@);
            let audio = values(params, "directStreamAudio"@);
            match s.delivery {
                TranscodeDelivery::FixedHls { .. } => video == seq![decimal(0)] && audio == seq![
                    decimal(0),
                ],
                TranscodeDelivery::ProgressiveMkv => {
                    &&& s.remux ==> video == seq![decimal(1)] && audio == seq![decimal(1)]
                    &&& !s.remux && s.no_video_copy ==> video == seq![decimal(0)] && audio == seq![
                        decimal(1),
                    ]
                    &&& !s.remux && !s.no_video_copy ==> video == seq![decimal(1)] && audio.len()
                        == 0
                },
            }
        }),
{
    lemma_keys();
    lemma_value_at(client, caps, s, "directStream"@, Group::Source, 5);
    match s.delivery {
        TranscodeDelivery::FixedHls { .. } => {
            lemma_value_at(client, caps, s, "directStreamAudio"@, Group::Audio, 0);
        },
        TranscodeDelivery::ProgressiveMkv => {
            if s.remux {
                lemma_value_at(client, caps, s, "directStreamAudio"@, Group::Flavor, 0);
            } else if s.no_video_copy {
                lemma_value_at(client, caps, s, "directStreamAudio"@, Group::Audio, 0);
            } else {
                lemma_no_value(client, caps, s, "directStreamAudio"@);
            }
        },
    }
}

/// The caps of every flavor. A progressive remux has none. Any other session has the ceiling that
/// it chose, or 3840 by 2160 at 60000 where it chose none: its resolution and its largest rate.
pub proof fn law_caps_of_a_session(
    client: ClientView,
    caps: CapsView,
    s: TranscodeSpec<'_>,
    ceiling: Ceiling,
)
    requires
        leaves_alone(client, "videoResolution"@),
        leaves_alone(client, "maxVideoBitrate"@),
        s.ceiling is Some ==> ceiling == s.ceiling->0,
        s.ceiling is None ==> ceiling.max_w == 3_840 && ceiling.max_h == 2_160 && ceiling.max_kbps
            == 60_000,
    ensures
        ({
            let params = transcode_params(client, caps, s);
            let copied = s.remux && s.delivery is ProgressiveMkv;
            &&& copied ==> values(params, "videoResolution"@).len() == 0
            &&& copied ==> values(params, "maxVideoBitrate"@).len() == 0
            &&& !copied ==> values(params, "videoResolution"@) == seq![
                decimal(ceiling.max_w as int) + "x"@ + decimal(ceiling.max_h as int),
            ]
            &&& !copied ==> values(params, "maxVideoBitrate"@) == seq![
                decimal(ceiling.max_kbps as int),
            ]
        }),
{
    lemma_keys();
    assert(s.bound() == ceiling);
    if s.remux && s.delivery is ProgressiveMkv {
        lemma_no_value(client, caps, s, "videoResolution"@);
        lemma_no_value(client, caps, s, "maxVideoBitrate"@);
    } else {
        lemma_value_at(client, caps, s, "videoResolution"@, Group::Flavor, 0);
        lemma_value_at(client, caps, s, "maxVideoBitrate"@, Group::Flavor, 1);
    }
}

/// What fixes a rendition. A segmented delivery runs at exactly its largest rate, does not adjust
/// itself, has segments of the length that was asked for, and asks for full quality, a buffer and
/// fast seeking. A progressive one says nothing of all this.
pub proof fn law_only_a_segmented_delivery_is_fixed(
    client: ClientView,
    caps: CapsView,
    s: TranscodeSpec<'_>,
)
    requires
        leaves_alone(client, "maxVideoBitrate"@),
        leaves_alone(client, "videoBitrate"@),
        leaves_alone(client, "peakBitrate"@),
        leaves_alone(client, "autoAdjustQuality"@),
        leaves_alone(client, "secondsPerSegment"@),
        leaves_alone(client, "videoQuality"@),
        leaves_alone(client, "mediaBufferSize"@),
        leaves_alone(client, "fastSeek"@),
    ensures
        ({
            let params = transcode_params(client, caps, s);
            match s.delivery {
                TranscodeDelivery::FixedHls { seconds_per_segment } => {
                    &&& values(params, "videoBitrate"@) == values(params, "maxVideoBitrate"@)
                    &&& values(params, "peakBitrate"@) == values(params, "maxVideoBitrate"@)
                    &&& values(params, "autoAdjustQuality"@) == seq![decimal(0)]
                    &&& values(params, "secondsPerSegment"@) == seq![
                        decimal(seconds_per_segment as int),
                    ]
                    &&& values(params, "videoQuality"@) == seq![decimal(100)]
                    &&& values(params, "mediaBufferSize"@) == seq![decimal(20_971)]
                    &&& values(params, "fastSeek"@) == seq![decimal(1)]
                },
                TranscodeDelivery::ProgressiveMkv => {
                    &&& values(params, "videoBitrate"@).len() == 0
                    &&& values(params, "peakBitrate"@).len() == 0
                    &&& values(params, "autoAdjustQuality"@).len() == 0
                    &&& values(params, "secondsPerSegment"@).len() == 0
                    &&& values(params, "videoQuality"@).len() == 0
                    &&& values(params, "mediaBufferSize"@).len() == 0
                    &&& values(params, "fastSeek"@).len() == 0
                },
            }
        }),
{
    lemma_keys();
    match s.delivery {
        TranscodeDelivery::FixedHls { .. } => {
            lemma_value_at(client, caps, s, "maxVideoBitrate"@, Group::Flavor, 1);
            lemma_value_at(client, caps, s, "videoBitrate"@, Group::Flavor, 2);
            lemma_value_at(client, caps, s, "peakBitrate"@, Group::Flavor, 3);
            lemma_value_at(client, caps, s, "autoAdjustQuality"@, Group::Flavor, 4);
            lemma_value_at(client, caps, s, "secondsPerSegment"@, Group::Flavor, 5);
            lemma_value_at(client, caps, s, "videoQuality"@, Group::Flavor, 6);
            lemma_value_at(client, caps, s, "mediaBufferSize"@, Group::Flavor, 7);
            lemma_value_at(client, caps, s, "fastSeek"@, Group::Flavor, 8);
        },
        TranscodeDelivery::ProgressiveMkv => {
            lemma_no_value(client, caps, s, "videoBitrate"@);
            lemma_no_value(client, caps, s, "peakBitrate"@);
            lemma_no_value(client, caps, s, "autoAdjustQuality"@);
            lemma_no_value(client, caps, s, "secondsPerSegment"@);
            lemma_no_value(client, caps, s, "videoQuality"@);
            lemma_no_value(client, caps, s, "mediaBufferSize"@);
            lemma_no_value(client, caps, s, "fastSeek"@);
        },
    }
}

/// The streams that the viewer chose, each whatever the other is, and in every flavor and
/// delivery. A chosen subtitle is burned in at its full size. A stream that was not chosen is not
/// spoken of.
pub proof fn law_chosen_streams_go_out(client: ClientView, caps: CapsView, s: TranscodeSpec<'_>)
    requires
        leaves_alone(client, "audioStreamID"@),
        leaves_alone(client, "subtitleStreamID"@),
        leaves_alone(client, "subtitleSize"@),
        leaves_alone(client, "subtitles"@),
    ensures
        ({
            let params = transcode_params(client, caps, s);
            &&& s.audio_stream_id > 0 ==> values(params, "audioStreamID"@) == seq![
                decimal(s.audio_stream_id as int),
            ]
            &&& s.audio_stream_id <= 0 ==> values(params, "audioStreamID"@).len() == 0
            &&& s.subtitle_stream_id > 0 ==> {
                &&& values(params, "subtitleStreamID"@) == seq![
                    decimal(s.subtitle_stream_id as int),
                ]
                &&& values(params, "subtitleSize"@) == seq![decimal(100)]
                &&& values(params, "subtitles"@) == seq!["burn"@]
            }
            &&& s.subtitle_stream_id <= 0 ==> {
                &&& values(params, "subtitleStreamID"@).len() == 0
                &&& values(params, "subtitleSize"@).len() == 0
                &&& values(params, "subtitles"@).len() == 0
            }
        }),
{
    lemma_keys();
    let at: int = if s.audio_stream_id > 0 {
        1
    } else {
        0
    };
    if s.audio_stream_id > 0 {
        lemma_value_at(client, caps, s, "audioStreamID"@, Group::Streams, 0);
    } else {
        lemma_no_value(client, caps, s, "audioStreamID"@);
    }
    if s.subtitle_stream_id > 0 {
        lemma_value_at(client, caps, s, "subtitleStreamID"@, Group::Streams, at);
        lemma_value_at(client, caps, s, "subtitleSize"@, Group::Streams, at + 1);
        lemma_value_at(client, caps, s, "subtitles"@, Group::Streams, at + 2);
    } else {
        lemma_no_value(client, caps, s, "subtitleStreamID"@);
        lemma_no_value(client, caps, s, "subtitleSize"@);
        lemma_no_value(client, caps, s, "subtitles"@);
    }
}

/// Every session goes out under the generic profile, with this set's own profile for its delivery,
/// and with an offset exactly where it does not begin afresh.
pub proof fn law_session_carries_profile_and_offset(
    client: ClientView,
    caps: CapsView,
    s: TranscodeSpec<'_>,
)
    requires
        leaves_alone(client, "X-Plex-Client-Profile-Name"@),
        leaves_alone(client, "X-Plex-Client-Profile-Extra"@),
        leaves_alone(client, "offset"@),
    ensures
        ({
            let params = transcode_params(client, caps, s);
            &&& values(params, "X-Plex-Client-Profile-Name"@) == seq!["Generic"@]
            &&& values(params, "X-Plex-Client-Profile-Extra"@) == seq![
                profile_text(caps, s.delivery),
            ]
            &&& match s.offset {
                TranscodeOffset::Fresh => values(params, "offset"@).len() == 0,
                TranscodeOffset::Micros(micros) => values(params, "offset"@) == seq![
                    seconds_text(micros),
                ],
            }
        }),
{
    lemma_keys();
    lemma_value_at(client, caps, s, "X-Plex-Client-Profile-Name"@, Group::Profile, 0);
    lemma_value_at(client, caps, s, "X-Plex-Client-Profile-Extra"@, Group::Profile, 1);
    match s.offset {
        TranscodeOffset::Fresh => {
            lemma_no_value(client, caps, s, "offset"@);
        },
        TranscodeOffset::Micros(_) => {
            lemma_value_at(client, caps, s, "offset"@, Group::Offset, 0);
        },
    }
}

/// What a client says of itself goes out in every session, under keys that the session does not
/// use: all of it, in order.
pub proof fn law_session_carries_the_clients_identity(
    client: ClientView,
    caps: CapsView,
    s: TranscodeSpec<'_>,
    key: Seq<char>,
)
    requires
        lacks(source_params(s), key),
        lacks(flavor_params(s), key),
        lacks(audio_params(s), key),
        lacks(stream_params(s), key),
        lacks(session_params(s), key),
        lacks(profile_params(caps, s.delivery), key),
        lacks(offset_params(s.offset), key),
    ensures
        values(transcode_params(client, caps, s), key) == values(client.identity, key),
{
    lemma_values_of_session(client, caps, s, key);
    lemma_values_absent(source_params(s), key);
    lemma_values_absent(flavor_params(s), key);
    lemma_values_absent(audio_params(s), key);
    lemma_values_absent(stream_params(s), key);
    lemma_values_absent(session_params(s), key);
    lemma_values_absent(profile_params(caps, s.delivery), key);
    lemma_values_absent(offset_params(s.offset), key);
    assert(values(transcode_params(client, caps, s), key) =~= values(client.identity, key));
}

/// A session says nothing beyond all that: it has exactly so many parameters.
pub proof fn law_session_says_nothing_else(client: ClientView, caps: CapsView, s: TranscodeSpec<'_>)
    ensures
        ({
            let count = |holds: bool, n: int|
                if holds {
                    n
                } else {
                    0
                };
            let copied = s.remux && s.delivery is ProgressiveMkv;
            let refused = s.delivery is ProgressiveMkv && s.no_video_copy && !s.remux;
            transcode_params(client, caps, s).len() == 6 + count(copied, 1) + count(!copied, 2)
                + count(s.delivery is FixedHls, 8) + count(refused, 1) + count(
                s.audio_stream_id > 0,
                1,
            ) + count(s.subtitle_stream_id > 0, 3) + 2 + client.identity.len() + 2 + count(
                s.offset is Micros,
                1,
            )
        }),
{
}

// ---- the other requests ---------------------------------------------------------------------
/// The question whether an item plays directly: it names the item and one session under both
/// identities, allows everything, and carries the profile of a progressive delivery.
pub proof fn law_direct_play_question(
    client: ClientView,
    caps: CapsView,
    rating_key: Seq<char>,
    session: Seq<char>,
    key: Seq<char>,
)
    requires
        leaves_alone(client, key),
        key == "path"@ || key == "mediaIndex"@ || key == "partIndex"@ || key == "protocol"@ || key
            == "hasMDE"@ || key == "directPlay"@ || key == "directStream"@ || key
            == "directStreamAudio"@ || key == "mediaBufferSize"@ || key == "session"@ || key
            == "X-Plex-Session-Identifier"@ || key == "X-Plex-Client-Profile-Name"@ || key
            == "X-Plex-Client-Profile-Extra"@,
    ensures
        ({
            let found = values(mde_params(client, caps, rating_key, session), key);
            &&& key == "path"@ ==> found == seq!["/library/metadata/"@ + rating_key]
            &&& key == "mediaIndex"@ || key == "partIndex"@ ==> found == seq![decimal(0)]
            &&& key == "protocol"@ ==> found == seq!["http"@]
            &&& key == "hasMDE"@ || key == "directPlay"@ || key == "directStream"@ || key
                == "directStreamAudio"@ ==> found == seq![decimal(1)]
            &&& key == "mediaBufferSize"@ ==> found == seq![decimal(20_971)]
            &&& key == "session"@ || key == "X-Plex-Session-Identifier"@ ==> found == seq![session]
            &&& key == "X-Plex-Client-Profile-Name"@ ==> found == seq!["Generic"@]
            &&& key == "X-Plex-Client-Profile-Extra"@ ==> found == seq![
                profile_text(caps, TranscodeDelivery::ProgressiveMkv),
            ]
        }),
        mde_params(client, caps, rating_key, session).len() == 13 + client.identity.len(),
{
    lemma_keys();
    reveal_strlit("hasMDE");
    assert("hasMDE"@.len() == 6 && "hasMDE"@[0] == 'h');
    let all = mde_params(client, caps, rating_key, session);
    let own = all.take(11);
    let profile = profile_params(caps, TranscodeDelivery::ProgressiveMkv);
    assert(all =~= own + client.identity + profile);
    lemma_values_of_sum(own + client.identity, profile, key);
    lemma_values_of_sum(own, client.identity, key);
    if key == "X-Plex-Client-Profile-Name"@ || key == "X-Plex-Client-Profile-Extra"@ {
        lemma_values_absent(own, key);
        lemma_values_once(
            profile,
            key,
            if key == "X-Plex-Client-Profile-Name"@ {
                0
            } else {
                1
            },
        );
        assert(values(all, key) =~= values(profile, key));
    } else {
        lemma_values_absent(profile, key);
        let at: int = if key == "path"@ {
            0
        } else if key == "mediaIndex"@ {
            1
        } else if key == "partIndex"@ {
            2
        } else if key == "protocol"@ {
            3
        } else if key == "hasMDE"@ {
            4
        } else if key == "directPlay"@ {
            5
        } else if key == "directStream"@ {
            6
        } else if key == "directStreamAudio"@ {
            7
        } else if key == "mediaBufferSize"@ {
            8
        } else if key == "session"@ {
            9
        } else {
            10
        };
        lemma_values_once(own, key, at);
        assert(values(all, key) =~= values(own, key));
    }
}

/// A scaled image is asked for by its own path, at its width and height and no smaller, and as a
/// PNG exactly where that is wanted.
pub proof fn law_scaled_image_is_what_was_asked_for(
    src_path: Seq<char>,
    w: int,
    h: int,
    png: bool,
)
    ensures
        ({
            let params = image_params(src_path, w, h, png);
            &&& values(params, "width"@) == seq![decimal(w)]
            &&& values(params, "height"@) == seq![decimal(h)]
            &&& values(params, "minSize"@) == seq![decimal(1)]
            &&& values(params, "url"@) == seq![src_path]
            &&& png ==> params.len() == 5 && values(params, "format"@) == seq!["png"@]
            &&& !png ==> params.len() == 4 && values(params, "format"@).len() == 0
        }),
{
    reveal_strlit("width");
    reveal_strlit("height");
    reveal_strlit("minSize");
    reveal_strlit("url");
    reveal_strlit("format");
    assert("width"@.len() == 5 && "height"@.len() == 6 && "minSize"@.len() == 7 && "url"@.len() == 3
        && "format"@.len() == 6 && "height"@[0] == 'h' && "format"@[0] == 'f');
    let params = image_params(src_path, w, h, png);
    lemma_values_once(params, "width"@, 0);
    lemma_values_once(params, "height"@, 1);
    lemma_values_once(params, "minSize"@, 2);
    lemma_values_once(params, "url"@, 3);
    if png {
        lemma_values_once(params, "format"@, 4);
    } else {
        lemma_values_absent(params, "format"@);
    }
}

/// A stop, a closing and a ping each name the session and nothing beyond what they are for: a stop
/// by both identities, with the client's own and with whether the resource goes, a closing by the
/// resource's identity, a ping by the encoder's.
pub proof fn law_ending_a_session_names_it(
    client: ClientView,
    session: Seq<char>,
    close_resource: bool,
)
    ensures
        ({
            let stop = stop_params(client, session, close_resource);
            &&& stop.len() == 4
            &&& values(stop, "session"@) == seq![session]
            &&& values(stop, "X-Plex-Session-Identifier"@) == seq![session]
            &&& values(stop, "X-Plex-Client-Identifier"@) == seq![client.client_id]
            &&& close_resource ==> values(stop, "closeResourceSession"@) == seq![decimal(1)]
            &&& !close_resource ==> values(stop, "closeResourceSession"@) == seq![decimal(0)]
        }),
        close_params(session).len() == 1,
        values(close_params(session), "X-Plex-Session-Identifier"@) == seq![session],
        ping_params(session).len() == 1,
        values(ping_params(session), "session"@) == seq![session],
{
    lemma_keys();
    reveal_strlit("X-Plex-Client-Identifier");
    reveal_strlit("closeResourceSession");
    assert("X-Plex-Client-Identifier"@.len() == 24 && "closeResourceSession"@.len() == 20);
    let stop = stop_params(client, session, close_resource);
    lemma_values_once(stop, "session"@, 0);
    lemma_values_once(stop, "closeResourceSession"@, 1);
    lemma_values_once(stop, "X-Plex-Session-Identifier"@, 2);
    lemma_values_once(stop, "X-Plex-Client-Identifier"@, 3);
    lemma_values_once(close_params(session), "X-Plex-Session-Identifier"@, 0);
    lemma_values_once(ping_params(session), "session"@, 0);
}

/// The header of a registering decision names the playback, never the encoder.
pub proof fn law_header_names_the_playback(a: TranscodeSpec<'_>, b: TranscodeSpec<'_>)
    ensures
        session_header(a) == "X-Plex-Session-Identifier: "@ + a.session@,
        a.session@ == b.session@ ==> session_header(a) == session_header(b),
{
}

/// A progressive session streams Matroska, a segmented one a playlist.
pub proof fn law_endpoint_follows_the_delivery(
    client: ClientView,
    caps: CapsView,
    s: TranscodeSpec<'_>,
)
    ensures
        ({
            let query = rendered(transcode_params(client, caps, s));
            &&& s.delivery is ProgressiveMkv ==> start_path(client, caps, s)
                == "/video/:/transcode/universal/start.mkv?"@ + query
            &&& s.delivery is FixedHls ==> start_path(client, caps, s)
                == "/video/:/transcode/universal/start.m3u8?"@ + query
        }),
{
    let query = rendered(transcode_params(client, caps, s));
    reveal_strlit("/video/:/transcode/universal/");
    reveal_strlit("start.mkv");
    reveal_strlit("start.m3u8");
    reveal_strlit("?");
    reveal_strlit("/video/:/transcode/universal/start.mkv?");
    reveal_strlit("/video/:/transcode/universal/start.m3u8?");
    let base = "/video/:/transcode/universal/"@;
    assert("/video/:/transcode/universal/start.mkv?"@ =~= base + "start.mkv"@ + "?"@);
    assert("/video/:/transcode/universal/start.m3u8?"@ =~= base + "start.m3u8"@ + "?"@);
}

// ---- what answers say -----------------------------------------------------------------------
/// Only a status in the two hundreds accepts. A ping learns that an encoder is there from such a
/// status alone, and that it is gone from 404 alone.
pub proof fn law_only_404_says_gone(status: u16)
    ensures
        is_success(status) <==> status / 100 == 2,
        present(Some(status)) == Some(true) <==> status / 100 == 2,
        present(Some(status)) == Some(false) <==> status == 404,
        present(None) is None,
{
}

/// A resource is known to be closed where the request was accepted, or where there was none to
/// close. No status says that it is still open, and no answer says nothing.
pub proof fn law_no_status_says_open(status: u16)
    ensures
        reconciled(Some(status)) == Some(true) <==> status / 100 == 2 || status == 404,
        reconciled(Some(status)) != Some(false),
        reconciled(None) is None,
{
}

/// A track plays directly exactly where the set claims its codec. Every spelling of the DTS family
/// goes by the one claim of `dca`.
pub proof fn law_direct_play_goes_by_the_claim(caps: CapsView, codec: Seq<char>)
    ensures
        ({
            let is_dts = codec == seq!['d', 't', 's'] || codec.len() >= 4 && codec[0] == 'd'
                && codec[1] == 'c' && codec[2] == 'a' && codec[3] == '-';
            &&& is_dts ==> audio_key(codec) == seq!['d', 'c', 'a']
            &&& !is_dts ==> audio_key(codec) == codec
            &&& is_dts ==> plays_directly(caps, codec) == caps.has_audio(seq!['d', 'c', 'a'])
            &&& !is_dts ==> plays_directly(caps, codec) == caps.has_audio(codec)
        }),
{
    reveal_strlit("dts");
    reveal_strlit("dca");
    reveal_strlit("dca-");
    assert("dts"@ =~= seq!['d', 't', 's']);
    assert("dca"@ =~= seq!['d', 'c', 'a']);
    if codec.len() >= 4 {
        let cut = codec.take(4);
        assert(cut[0] == codec[0] && cut[1] == codec[1] && cut[2] == codec[2] && cut[3]
            == codec[3]);
        if codec[0] == 'd' && codec[1] == 'c' && codec[2] == 'a' && codec[3] == '-' {
            assert(cut =~= "dca-"@);
        }
    }
}

// ---- texts ----------------------------------------------------------------------------------
/// A parameter is its key, an equals sign and its encoded value.
pub proof fn law_parameter_is_key_and_value(param: (Seq<char>, Seq<char>))
    ensures
        has_prefix(param_text(param), param.0),
        param_text(param)[param.0.len() as int] == '=',
        param_text(param).skip(param.0.len() as int + 1) == encoded(param.1),
{
    reveal_strlit("=");
    assert(param_text(param).take(param.0.len() as int) =~= param.0);
    assert(param_text(param).skip(param.0.len() as int + 1) =~= encoded(param.1));
}

/// A path with parameters is followed by a question mark and its query, one without by nothing.
pub proof fn law_query_follows_its_path(path: Seq<char>, params: Seq<(Seq<char>, Seq<char>)>)
    ensures
        params.len() == 0 ==> path_with_query(path, params) == path,
        params.len() > 0 ==> {
            &&& path_with_query(path, params).take(path.len() as int) == path
            &&& path_with_query(path, params)[path.len() as int] == '?'
            &&& path_with_query(path, params).skip(path.len() as int + 1) == rendered(params)
        },
{
    reveal_strlit("?");
    if params.len() > 0 {
        assert(path_with_query(path, params).take(path.len() as int) =~= path);
        assert(path_with_query(path, params).skip(path.len() as int + 1) =~= rendered(params));
    }
}

/// The token is the last parameter of every request: it joins a query that is there, and begins
/// one where there is none.
pub proof fn law_token_is_the_last_parameter(client: ClientView, path: Seq<char>)
    ensures
        ({
            let all = client.authorized(path);
            &&& all.take(path.len() as int) == path
            &&& path.contains('?') ==> all[path.len() as int] == '&'
            &&& !path.contains('?') ==> all[path.len() as int] == '?'
            &&& all.skip(path.len() as int + 1) == param_text(("X-Plex-Token"@, client.token))
        }),
{
    reveal_strlit("&");
    reveal_strlit("?");
    reveal_strlit("=");
    reveal_strlit("X-Plex-Token");
    reveal_strlit("X-Plex-Token=");
    let all = client.authorized(path);
    assert(all.take(path.len() as int) =~= path);
    assert("X-Plex-Token="@ =~= "X-Plex-Token"@ + "="@);
    assert(all.skip(path.len() as int + 1) =~= "X-Plex-Token"@ + "="@ + encoded(client.token));
}

/// An origin is its scheme, its host as it stands, a colon and its port.
pub proof fn law_origin_names_scheme_host_and_port(origin: Origin)
    ensures
        ({
            let text = origin.text();
            let scheme = if origin.https {
                "https://"@
            } else {
                "http://"@
            };
            let host_end = (scheme.len() + origin.host@.len()) as int;
            &&& text.take(scheme.len() as int) == scheme
            &&& text.subrange(scheme.len() as int, host_end) == origin.host@
            &&& text[host_end] == ':'
            &&& all_digits(text.skip(host_end + 1))
            &&& number_read(text.skip(host_end + 1)) == origin.port
        }),
{
    reveal_strlit(":");
    let text = origin.text();
    let scheme = if origin.https {
        "https://"@
    } else {
        "http://"@
    };
    let host_end = (scheme.len() + origin.host@.len()) as int;
    law_decimal_reads_back(origin.port as nat);
    assert(text.take(scheme.len() as int) =~= scheme);
    assert(text.subrange(scheme.len() as int, host_end) =~= origin.host@);
    assert(text.skip(host_end + 1) =~= decimal_nat(origin.port as nat));
}

/// An offset reads back to the microsecond: whole seconds, a point, and six digits more.
pub proof fn law_offset_reads_back(micros: u64)
    ensures
        ({
            let parts = split_on(seconds_text(micros), '.');
            &&& parts.len() == 2
            &&& all_digits(parts[0]) && all_digits(parts[1])
            &&& parts[1].len() == 6
            &&& number_read(parts[0]) * 1_000_000 + number_read(parts[1]) == micros
        }),
{
    let whole = decimal_nat((micros / 1_000_000) as nat);
    let rest = last_digits((micros % 1_000_000) as nat, 6);
    law_decimal_reads_back((micros / 1_000_000) as nat);
    reveal_with_fuel(ten_to, 7);
    law_fixed_digits_read_back((micros % 1_000_000) as nat, 6);
    reveal_strlit(".");
    let parts = seq![whole, rest];
    assert(parts.drop_last() =~= seq![whole]);
    reveal_with_fuel(joined, 3);
    assert(joined(parts, '.') =~= seconds_text(micros));
    assert(!whole.contains('.'));
    assert(!rest.contains('.'));
    assert(forall|i: int| 0 <= i < parts.len() ==> !(#[trigger] parts[i]).contains('.'));
    law_split_undoes_join(parts, '.');
}

/// A resolution is its width and its height, in that order, with an `x` between.
pub proof fn law_resolution_is_width_by_height(w: int, h: int)
    requires
        w >= 0,
        h >= 0,
    ensures
        ({
            let parts = split_on(resolution_text(w, h), 'x');
            parts.len() == 2 && number_read(parts[0]) == w && number_read(parts[1]) == h
        }),
{
    law_decimal_reads_back(w as nat);
    law_decimal_reads_back(h as nat);
    reveal_strlit("x");
    let parts = seq![decimal(w), decimal(h)];
    assert(parts.drop_last() =~= seq![decimal(w)]);
    reveal_with_fuel(joined, 3);
    assert(joined(parts, 'x') =~= resolution_text(w, h));
    assert(!decimal(w).contains('x'));
    assert(!decimal(h).contains('x'));
    assert(forall|i: int| 0 <= i < parts.len() ==> !(#[trigger] parts[i]).contains('x'));
    law_split_undoes_join(parts, 'x');
}

} // verus!
