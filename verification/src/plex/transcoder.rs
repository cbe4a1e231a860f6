//! The universal transcoder and the image transcoder: what this set claims that it can play, and
//! the requests that ask for it.
//!
//! The client sends nothing itself. Each operation here builds the request that goes to the server,
//! and where the server's answer is a status alone, reads it.
use vstd::prelude::*;

use crate::devcaps::{Caps, CapsView, Snapshot};
use crate::plex::client::{Client, ClientView, Method, Request, StreamUrl};
use crate::plex::params::{
    resolution_text, Ceiling, TranscodeDelivery, TranscodeOffset, TranscodeSpec,
};
use crate::plex::probe::Location;
use crate::plex::query::{number, path_with_query, rendered, QueryBuilder};
use crate::text::{
    begins_with, decimal_nat, has_prefix, join, joined, push_decimal_u64, same, texts,
};

verus! {

// ---- audio that plays directly --------------------------------------------------------------
/// The audio codecs that the pipeline can feed, as a comma list. What plays directly is this list
/// as far as the device's own table agrees: see [`Caps::audio`].
pub const DP_AUDIO_CODECS: &'static str = "aac,ac3,eac3,dca";

/// The spelling that an audio codec is looked up by.
pub open spec fn audio_key(codec: Seq<char>) -> Seq<char> {
    if codec == "dts"@ || has_prefix(codec, "dca-"@) {
        "dca"@
    } else {
        codec
    }
}

/// The server spells the DTS family several ways, and one decoder plays them all. Any other codec
/// keeps its name.
pub fn dp_audio_key(codec: &str) -> (r: &str)
    ensures
        r@ == audio_key(codec@),
{
    if same(codec, "dts") || begins_with(codec, "dca-") {
        "dca"
    } else {
        codec
    }
}

/// Whether a track of this codec plays directly on a set with these capabilities.
pub open spec fn plays_directly(caps: CapsView, codec: Seq<char>) -> bool {
    caps.has_audio(audio_key(codec))
}

/// Whether a track of this codec plays directly on a set with these capabilities.
pub fn is_dp_audio(caps: &Caps, codec: &str) -> (r: bool)
    ensures
        r == plays_directly(caps@, codec@),
{
    caps.audio_has(dp_audio_key(codec))
}

// ---- what a link allows ---------------------------------------------------------------------
/// What the connection to a server lets a playback ask for.
#[derive(Clone, Copy, Debug, PartialEq, Eq, Structural)]
pub struct LinkPolicy {
    /// May the source file itself be streamed?
    pub direct_play: bool,
    /// May a transcode copy the codecs and change the container alone?
    pub remux: bool,
}

impl LinkPolicy {
    /// Everything is allowed: on every tier but a relay, and on a link that nobody has described.
    pub fn unrestricted() -> (r: LinkPolicy)
        ensures
            r.direct_play && r.remux,
    {
        LinkPolicy { direct_play: true, remux: true }
    }
}

/// What a tier allows.
///
/// A relay caps the rate far below a file's own, and only an encoder can come in under it. Direct
/// play streams the file's bytes, and a remux streams the same bytes at the same rate: a relay
/// allows neither. A link that nobody has described is not taken for a relay.
pub fn link_policy(link: Option<Location>) -> (r: LinkPolicy)
    ensures
        link == Some(Location::Relay) ==> !r.direct_play && !r.remux,
        link != Some(Location::Relay) ==> r.direct_play && r.remux,
{
    match link {
        Some(Location::Relay) => LinkPolicy { direct_play: false, remux: false },
        Some(Location::Local) | Some(Location::Remote) | None => LinkPolicy::unrestricted(),
    }
}

// ---- the capability profile -----------------------------------------------------------------
/// The video codecs that play directly: H.264 on every set, HEVC where it is decoded.
pub open spec fn direct_video(caps: CapsView) -> Seq<Seq<char>> {
    if caps.hevc {
        seq!["h264"@, "hevc"@]
    } else {
        seq!["h264"@]
    }
}

/// The video codecs that the server may transcode to, the preferred one first. H.264 ends the
/// chain: a server without a subscription can produce nothing else.
///
/// A segmented delivery has one rendition, since nothing is known of changing codecs within it.
pub open spec fn target_video(caps: CapsView, delivery: TranscodeDelivery) -> Seq<Seq<char>> {
    if caps.encode_target() == "h264"@ || delivery is FixedHls {
        seq!["h264"@]
    } else {
        seq![caps.encode_target(), "h264"@]
    }
}

/// The audio codecs that a track may be encoded to, the preferred one first.
pub open spec fn encodable_audio() -> Seq<Seq<char>> {
    seq!["ac3"@, "eac3"@, "aac"@]
}

/// The audio codecs that the server may transcode to or copy: those that this set decodes.
pub open spec fn target_audio(caps: CapsView, delivery: TranscodeDelivery) -> Seq<Seq<char>> {
    if delivery is FixedHls {
        seq!["aac"@]
    } else {
        encodable_audio().filter(|c: Seq<char>| caps.has_audio(c))
    }
}

/// The protocol of a delivery.
pub open spec fn protocol_text(delivery: TranscodeDelivery) -> Seq<char> {
    if delivery is FixedHls {
        "hls"@
    } else {
        "http"@
    }
}

/// The container of a delivery.
pub open spec fn container_text(delivery: TranscodeDelivery) -> Seq<char> {
    if delivery is FixedHls {
        "mpegts"@
    } else {
        "matroska"@
    }
}

/// The part of the profile that says what a transcode may produce.
pub open spec fn target_text(caps: CapsView, delivery: TranscodeDelivery) -> Seq<char> {
    "add-transcode-target(type=videoProfile&context=streaming&protocol="@ + protocol_text(delivery)
        + "&container="@ + container_text(delivery) + "&videoCodec="@ + joined(
        target_video(caps, delivery),
        ',',
    ) + "&audioCodec="@ + joined(target_audio(caps, delivery), ',') + ")"@
}

/// An upper bound that the profile sets.
pub open spec fn limitation_text(name: Seq<char>, value: nat) -> Seq<char> {
    "+add-limitation(scope=videoCodec&scopeName=*&type=upperBound&name="@ + name + "&value="@
        + decimal_nat(value) + "&replace=true)"@
}

/// The profile of a set: what it plays directly, the bounds of its decoders, and what a transcode
/// may produce. The codec table has no axis for the bit depth, so ten bits are always claimed.
pub open spec fn profile_text(caps: CapsView, delivery: TranscodeDelivery) -> Seq<char> {
    "add-direct-play-profile(type=videoProfile&container=mkv,mp4&videoCodec="@ + joined(
        direct_video(caps),
        ',',
    ) + "&audioCodec="@ + caps.audio + "&subtitleCodec=srt,subrip,ass,ssa)"@ + limitation_text(
        "video.width"@,
        caps.hevc_max.0 as nat,
    ) + limitation_text("video.height"@, caps.hevc_max.1 as nat) + limitation_text(
        "video.bitDepth"@,
        10,
    ) + "+"@ + target_text(caps, delivery)
}

fn push_direct_video(out: &mut String, caps: &Caps)
    ensures
        final(out)@ == old(out)@ + joined(direct_video(caps@), ','),
{
    let mut list: Vec<String> = Vec::new();
    list.push(String::from_str("h264"));
    if caps.hevc {
        list.push(String::from_str("hevc"));
    }
    assert(texts(list@) =~= direct_video(caps@));
    out.append(join(&list, ',').as_str());
}

fn push_target_video(out: &mut String, caps: &Caps, delivery: TranscodeDelivery)
    ensures
        final(out)@ == old(out)@ + joined(target_video(caps@, delivery), ','),
{
    let head = caps.encode_vcodec();
    let mut list: Vec<String> = Vec::new();
    let one = match delivery {
        TranscodeDelivery::FixedHls { .. } => true,
        TranscodeDelivery::ProgressiveMkv => same(head, "h264"),
    };
    if !one {
        list.push(String::from_str(head));
    }
    list.push(String::from_str("h264"));
    assert(texts(list@) =~= target_video(caps@, delivery));
    out.append(join(&list, ',').as_str());
}

fn push_target_audio(out: &mut String, caps: &Caps, delivery: TranscodeDelivery)
    ensures
        final(out)@ == old(out)@ + joined(target_audio(caps@, delivery), ','),
{
    let mut list: Vec<String> = Vec::new();
    match delivery {
        TranscodeDelivery::FixedHls { .. } => {
            list.push(String::from_str("aac"));
            assert(texts(list@) =~= target_audio(caps@, delivery));
        },
        TranscodeDelivery::ProgressiveMkv => {
            let ac3 = caps.audio_has("ac3");
            let eac3 = caps.audio_has("eac3");
            let aac = caps.audio_has("aac");
            if ac3 {
                list.push(String::from_str("ac3"));
            }
            if eac3 {
                list.push(String::from_str("eac3"));
            }
            if aac {
                list.push(String::from_str("aac"));
            }
            proof {
                let keep = |c: Seq<char>| caps@.has_audio(c);
                let all = encodable_audio();
                reveal(Seq::filter);
                assert(all.drop_last() =~= seq!["ac3"@, "eac3"@]);
                assert(all.drop_last().drop_last() =~= seq!["ac3"@]);
                assert(all.drop_last().drop_last().drop_last() =~= Seq::empty());
                reveal_with_fuel(Seq::filter, 4);
                assert(texts(list@) =~= all.filter(keep));
                assert(texts(list@) =~= target_audio(caps@, delivery));
            }
        },
    }
    out.append(join(&list, ',').as_str());
}

fn push_limitation(out: &mut String, name: &str, value: u32)
    ensures
        final(out)@ == old(out)@ + limitation_text(name@, value as nat),
{
    out.append("+add-limitation(scope=videoCodec&scopeName=*&type=upperBound&name=");
    out.append(name);
    out.append("&value=");
    push_decimal_u64(out, value as u64);
    out.append("&replace=true)");
    assert(out@ =~= old(out)@ + limitation_text(name@, value as nat));
}

fn push_target(out: &mut String, caps: &Caps, delivery: TranscodeDelivery)
    ensures
        final(out)@ == old(out)@ + target_text(caps@, delivery),
{
    let (protocol, container) = match delivery {
        TranscodeDelivery::FixedHls { .. } => ("hls", "mpegts"),
        TranscodeDelivery::ProgressiveMkv => ("http", "matroska"),
    };
    out.append("add-transcode-target(type=videoProfile&context=streaming&protocol=");
    out.append(protocol);
    out.append("&container=");
    out.append(container);
    out.append("&videoCodec=");
    push_target_video(out, caps, delivery);
    out.append("&audioCodec=");
    push_target_audio(out, caps, delivery);
    out.append(")");
    assert(out@ =~= old(out)@ + target_text(caps@, delivery));
}

/// The profile of a set with these capabilities, for this delivery.
pub fn profile_for_delivery(caps: &Caps, delivery: TranscodeDelivery) -> (r: String)
    ensures
        r@ == profile_text(caps@, delivery),
{
    let mut out = String::from_str(
        "add-direct-play-profile(type=videoProfile&container=mkv,mp4&videoCodec=",
    );
    push_direct_video(&mut out, caps);
    out.append("&audioCodec=");
    out.append(caps.audio.as_str());
    out.append("&subtitleCodec=srt,subrip,ass,ssa)");
    push_limitation(&mut out, "video.width", caps.hevc_max.0);
    push_limitation(&mut out, "video.height", caps.hevc_max.1);
    push_limitation(&mut out, "video.bitDepth", 10);
    out.append("+");
    push_target(&mut out, caps, delivery);
    out
}

/// The profile of a set with these capabilities, for a progressive delivery.
pub fn profile_for(caps: &Caps) -> (r: String)
    ensures
        r@ == profile_text(caps@, TranscodeDelivery::ProgressiveMkv),
{
    profile_for_delivery(caps, TranscodeDelivery::ProgressiveMkv)
}

/// The profile of THIS device, for this delivery: the one of the snapshot.
pub fn profile_extra(snapshot: &mut Snapshot, delivery: TranscodeDelivery) -> (r: String)
    ensures
        r@ == profile_text(old(snapshot)@.current(), delivery),
        final(snapshot)@ == old(snapshot)@.after_read(),
{
    profile_for_delivery(snapshot.caps(), delivery)
}

// ---- the transcoder's query -----------------------------------------------------------------
/// What is asked for, and how it may be produced.
pub open spec fn source_params(s: TranscodeSpec<'_>) -> Seq<(Seq<char>, Seq<char>)> {
    seq![
        ("path"@, "/library/metadata/"@ + s.rating_key@),
        number("mediaIndex"@, 0),
        number("partIndex"@, 0),
        ("protocol"@, protocol_text(s.delivery)),
        number("directPlay"@, 0),
        number(
            "directStream"@,
            if s.copy_allowed() {
                1
            } else {
                0
            },
        ),
    ]
}

/// The ceiling of a re-encode.
pub open spec fn ceiling_params(c: Ceiling) -> Seq<(Seq<char>, Seq<char>)> {
    seq![
        ("videoResolution"@, resolution_text(c.max_w as int, c.max_h as int)),
        number("maxVideoBitrate"@, c.max_kbps as int),
    ]
}

/// What fixes a segmented rendition at its ceiling.
pub open spec fn fixed_params(c: Ceiling, seconds_per_segment: u32) -> Seq<(Seq<char>, Seq<char>)> {
    seq![
        number("videoBitrate"@, c.max_kbps as int),
        number("peakBitrate"@, c.max_kbps as int),
        number("autoAdjustQuality"@, 0),
        number("secondsPerSegment"@, seconds_per_segment as int),
        number("videoQuality"@, 100),
        number("mediaBufferSize"@, 20971),
        number("fastSeek"@, 1),
    ]
}

/// Where the flavors differ. A remux copies the codecs, and a cap would force the encode that it
/// avoids; a re-encode is capped.
pub open spec fn flavor_params(s: TranscodeSpec<'_>) -> Seq<(Seq<char>, Seq<char>)> {
    if s.remux && !s.is_hls() {
        seq![number("directStreamAudio"@, 1)]
    } else {
        match s.delivery {
            TranscodeDelivery::ProgressiveMkv => ceiling_params(s.bound()),
            TranscodeDelivery::FixedHls { seconds_per_segment } => ceiling_params(s.bound())
                + fixed_params(s.bound(), seconds_per_segment),
        }
    }
}

/// Whether the audio may be copied, where the video may not.
pub open spec fn audio_params(s: TranscodeSpec<'_>) -> Seq<(Seq<char>, Seq<char>)> {
    if s.is_hls() {
        seq![number("directStreamAudio"@, 0)]
    } else if !s.copy_allowed() {
        seq![number("directStreamAudio"@, 1)]
    } else {
        Seq::empty()
    }
}

/// The streams that were chosen. A subtitle is burned in.
pub open spec fn stream_params(s: TranscodeSpec<'_>) -> Seq<(Seq<char>, Seq<char>)> {
    (if s.audio_stream_id > 0 {
        seq![number("audioStreamID"@, s.audio_stream_id as int)]
    } else {
        Seq::empty()
    }) + (if s.subtitle_stream_id > 0 {
        seq![
            number("subtitleStreamID"@, s.subtitle_stream_id as int),
            number("subtitleSize"@, 100),
            ("subtitles"@, "burn"@),
        ]
    } else {
        Seq::empty()
    })
}

/// The encoder's identity and the playback's.
pub open spec fn session_params(s: TranscodeSpec<'_>) -> Seq<(Seq<char>, Seq<char>)> {
    seq![("session"@, s.encoder_session@), ("X-Plex-Session-Identifier"@, s.session@)]
}

/// What this set claims that it can play.
pub open spec fn profile_params(
    caps: CapsView,
    delivery: TranscodeDelivery,
) -> Seq<(Seq<char>, Seq<char>)> {
    seq![
        ("X-Plex-Client-Profile-Name"@, "Generic"@),
        ("X-Plex-Client-Profile-Extra"@, profile_text(caps, delivery)),
    ]
}

/// Where the content begins.
pub open spec fn offset_params(offset: TranscodeOffset) -> Seq<(Seq<char>, Seq<char>)> {
    match offset.wire() {
        Some(text) => seq![("offset"@, text)],
        None => Seq::empty(),
    }
}

/// The parameters of a transcode session. The decision that registers it and the stream that is
/// read from it carry the same.
pub open spec fn transcode_params(
    client: ClientView,
    caps: CapsView,
    s: TranscodeSpec<'_>,
) -> Seq<(Seq<char>, Seq<char>)> {
    source_params(s) + flavor_params(s) + audio_params(s) + stream_params(s) + session_params(s)
        + client.identity + profile_params(caps, s.delivery) + offset_params(s.offset)
}

/// The parameters of the question whether an item plays directly.
pub open spec fn mde_params(
    client: ClientView,
    caps: CapsView,
    rating_key: Seq<char>,
    session: Seq<char>,
) -> Seq<(Seq<char>, Seq<char>)> {
    seq![
        ("path"@, "/library/metadata/"@ + rating_key),
        number("mediaIndex"@, 0),
        number("partIndex"@, 0),
        ("protocol"@, "http"@),
        number("hasMDE"@, 1),
        number("directPlay"@, 1),
        number("directStream"@, 1),
        number("directStreamAudio"@, 1),
        number("mediaBufferSize"@, 20971),
        ("session"@, session),
        ("X-Plex-Session-Identifier"@, session),
    ] + client.identity + profile_params(caps, TranscodeDelivery::ProgressiveMkv)
}

/// The parameters of a stop.
pub open spec fn stop_params(
    client: ClientView,
    session: Seq<char>,
    close_resource: bool,
) -> Seq<(Seq<char>, Seq<char>)> {
    seq![
        ("session"@, session),
        number(
            "closeResourceSession"@,
            if close_resource {
                1
            } else {
                0
            },
        ),
        ("X-Plex-Session-Identifier"@, session),
        ("X-Plex-Client-Identifier"@, client.client_id),
    ]
}

/// The parameters of closing a session's resource.
pub open spec fn close_params(session: Seq<char>) -> Seq<(Seq<char>, Seq<char>)> {
    seq![("X-Plex-Session-Identifier"@, session)]
}

/// The parameters of a ping.
pub open spec fn ping_params(session: Seq<char>) -> Seq<(Seq<char>, Seq<char>)> {
    seq![("session"@, session)]
}

/// The parameters of a scaled image.
pub open spec fn image_params(
    src_path: Seq<char>,
    w: int,
    h: int,
    png: bool,
) -> Seq<(Seq<char>, Seq<char>)> {
    seq![
        number("width"@, w),
        number("height"@, h),
        number("minSize"@, 1),
        ("url"@, src_path),
    ] + (if png {
        seq![("format"@, "png"@)]
    } else {
        Seq::empty()
    })
}

fn with_source(q: QueryBuilder, s: &TranscodeSpec<'_>) -> (r: QueryBuilder)
    ensures
        r.path() == q.path(),
        r.params() == q.params() + source_params(*s),
{
    let hls = match s.delivery {
        TranscodeDelivery::FixedHls { .. } => true,
        TranscodeDelivery::ProgressiveMkv => false,
    };
    let copy_ok = !hls && !(s.no_video_copy && !s.remux);
    let protocol = if hls {
        "hls"
    } else {
        "http"
    };
    let mut path = String::from_str("/library/metadata/");
    path.append(s.rating_key);
    let r = q.with_str("path", path.as_str()).with_int("mediaIndex", 0).with_int(
        "partIndex",
        0,
    ).with_str("protocol", protocol).with_int("directPlay", 0).with_int(
        "directStream",
        if copy_ok {
            1
        } else {
            0
        },
    );
    assert(r.params() =~= q.params() + source_params(*s));
    r
}

fn with_flavor(q: QueryBuilder, s: &TranscodeSpec<'_>) -> (r: QueryBuilder)
    ensures
        r.path() == q.path(),
        r.params() == q.params() + flavor_params(*s),
{
    let hls = match s.delivery {
        TranscodeDelivery::FixedHls { .. } => true,
        TranscodeDelivery::ProgressiveMkv => false,
    };
    if s.remux && !hls {
        let r = q.with_int("directStreamAudio", 1);
        assert(r.params() =~= q.params() + flavor_params(*s));
        return r;
    }
    let c = match s.ceiling {
        Some(ceiling) => ceiling,
        None => Ceiling::native_4k(),
    };
    let capped = q.with_str("videoResolution", c.resolution().as_str()).with_int(
        "maxVideoBitrate",
        c.max_kbps,
    );
    assert(capped.params() =~= q.params() + ceiling_params(c));
    match s.delivery {
        TranscodeDelivery::ProgressiveMkv => capped,
        TranscodeDelivery::FixedHls { seconds_per_segment } => {
            let r = capped.with_int("videoBitrate", c.max_kbps).with_int(
                "peakBitrate",
                c.max_kbps,
            ).with_int("autoAdjustQuality", 0).with_int(
                "secondsPerSegment",
                seconds_per_segment as i64,
            ).with_int("videoQuality", 100).with_int("mediaBufferSize", 20971).with_int(
                "fastSeek",
                1,
            );
            assert(r.params() =~= capped.params() + fixed_params(c, seconds_per_segment));
            assert(r.params() =~= q.params() + flavor_params(*s));
            r
        },
    }
}

fn with_audio(q: QueryBuilder, s: &TranscodeSpec<'_>) -> (r: QueryBuilder)
    ensures
        r.path() == q.path(),
        r.params() == q.params() + audio_params(*s),
{
    let hls = match s.delivery {
        TranscodeDelivery::FixedHls { .. } => true,
        TranscodeDelivery::ProgressiveMkv => false,
    };
    let r = if hls {
        q.with_int("directStreamAudio", 0)
    } else if s.no_video_copy && !s.remux {
        q.with_int("directStreamAudio", 1)
    } else {
        q
    };
    assert(r.params() =~= q.params() + audio_params(*s));
    r
}

fn with_streams(q: QueryBuilder, s: &TranscodeSpec<'_>) -> (r: QueryBuilder)
    ensures
        r.path() == q.path(),
        r.params() == q.params() + stream_params(*s),
{
    let chosen = q.with_opt_int("audioStreamID", s.audio_stream_id);
    let r = if s.subtitle_stream_id > 0 {
        chosen.with_int("subtitleStreamID", s.subtitle_stream_id).with_int(
            "subtitleSize",
            100,
        ).with_str("subtitles", "burn")
    } else {
        chosen
    };
    assert(r.params() =~= q.params() + stream_params(*s));
    r
}

fn with_profile(q: QueryBuilder, caps: &Caps, delivery: TranscodeDelivery) -> (r: QueryBuilder)
    ensures
        r.path() == q.path(),
        r.params() == q.params() + profile_params(caps@, delivery),
{
    let extra = profile_for_delivery(caps, delivery);
    let r = q.with_str("X-Plex-Client-Profile-Name", "Generic").with_str(
        "X-Plex-Client-Profile-Extra",
        extra.as_str(),
    );
    assert(r.params() =~= q.params() + profile_params(caps@, delivery));
    r
}

fn with_offset(q: QueryBuilder, offset: &TranscodeOffset) -> (r: QueryBuilder)
    ensures
        r.path() == q.path(),
        r.params() == q.params() + offset_params(*offset),
{
    let r = match offset.wire_seconds() {
        Some(text) => q.with_str("offset", text.as_str()),
        None => q,
    };
    assert(r.params() =~= q.params() + offset_params(*offset));
    r
}

/// The path of a registering decision, with its query.
pub open spec fn decision_path(
    client: ClientView,
    caps: CapsView,
    s: TranscodeSpec<'_>,
) -> Seq<char> {
    "/video/:/transcode/universal/decision?"@ + rendered(transcode_params(client, caps, s))
}

/// The path of a stream, with its query.
pub open spec fn start_path(
    client: ClientView,
    caps: CapsView,
    s: TranscodeSpec<'_>,
) -> Seq<char> {
    "/video/:/transcode/universal/"@ + (if s.is_hls() {
        "start.m3u8"@
    } else {
        "start.mkv"@
    }) + "?"@ + rendered(transcode_params(client, caps, s))
}

/// The header line that names a session's playback.
pub open spec fn session_header(s: TranscodeSpec<'_>) -> Seq<char> {
    "X-Plex-Session-Identifier: "@ + s.session@
}

/// Whether a status says that the request was accepted.
pub open spec fn is_success(status: u16) -> bool {
    200 <= status <= 299
}

/// What the status of a closed resource says: it is closed now, or was not there any more.
pub open spec fn reconciled(status: Option<u16>) -> Option<bool> {
    match status {
        Some(status) => if is_success(status) || status == 404 {
            Some(true)
        } else {
            None
        },
        None => None,
    }
}

/// What the status of a ping says: the encoder is there, or it is not.
pub open spec fn present(status: Option<u16>) -> Option<bool> {
    match status {
        Some(status) => if is_success(status) {
            Some(true)
        } else if status == 404 {
            Some(false)
        } else {
            None
        },
        None => None,
    }
}

/// Whether a status says that the request was accepted.
pub fn accepted(status: u16) -> (r: bool)
    ensures
        r == is_success(status),
{
    200 <= status && status <= 299
}

impl Client {
    /// The path of a scaled image. It is the key that the image is cached by, too.
    pub fn image_transcode_path(&self, src_path: &str, w: i64, h: i64, png: bool) -> (r: String)
        ensures
            r@ == self@.authorized(
                path_with_query(
                    "/photo/:/transcode"@,
                    image_params(src_path@, w as int, h as int, png),
                ),
            ),
    {
        let q = QueryBuilder::new("/photo/:/transcode").with_int("width", w).with_int(
            "height",
            h,
        ).with_int("minSize", 1).with_str("url", src_path);
        let q = if png {
            q.with_str("format", "png")
        } else {
            q
        };
        assert(q.params() =~= image_params(src_path@, w as int, h as int, png));
        self.with_token(q.build().as_str())
    }

    /// The query of a transcode session.
    pub fn transcode_query(&self, caps: &Caps, s: &TranscodeSpec<'_>) -> (r: String)
        requires
            s.is_coherent(),
        ensures
            r@ == rendered(transcode_params(self@, caps@, *s)),
    {
        let q = with_source(QueryBuilder::new(""), s);
        let q = with_flavor(q, s);
        let q = with_audio(q, s);
        let q = with_streams(q, s);
        let ghost before = q.params();
        let q = q.with_str("session", s.encoder_session).with_str(
            "X-Plex-Session-Identifier",
            s.session,
        );
        assert(q.params() =~= before + session_params(*s));
        let q = self.playback_identity(q);
        let q = with_profile(q, caps, s.delivery);
        let q = with_offset(q, &s.offset);
        assert(q.params() =~= transcode_params(self@, caps@, *s));
        q.query()
    }

    /// Asks the server whether an item plays directly on a set with these capabilities. It
    /// registers the session, too. The answer is in the body.
    pub fn mde_decision(&self, caps: &Caps, rating_key: &str, session: &str) -> (r: Request)
        ensures
            r.method == Method::Get,
            r.path@ == self@.authorized(
                path_with_query(
                    "/video/:/transcode/universal/decision"@,
                    mde_params(self@, caps@, rating_key@, session@),
                ),
            ),
            r.headers@.len() == 0,
    {
        let mut path = String::from_str("/library/metadata/");
        path.append(rating_key);
        let q = QueryBuilder::new("/video/:/transcode/universal/decision").with_str(
            "path",
            path.as_str(),
        ).with_int("mediaIndex", 0).with_int("partIndex", 0).with_str(
            "protocol",
            "http",
        ).with_int("hasMDE", 1).with_int("directPlay", 1).with_int("directStream", 1).with_int(
            "directStreamAudio",
            1,
        ).with_int("mediaBufferSize", 20971).with_str("session", session).with_str(
            "X-Plex-Session-Identifier",
            session,
        );
        let q = self.playback_identity(q);
        let q = with_profile(q, caps, TranscodeDelivery::ProgressiveMkv);
        assert(q.params() =~= mde_params(self@, caps@, rating_key@, session@));
        self.get(q.build().as_str())
    }

    /// Registers a transcode session. A stream has to be registered before it can be read, and the
    /// answer's body says which codecs the server will send.
    pub fn transcode_decision(&self, caps: &Caps, spec: &TranscodeSpec<'_>) -> (r: Request)
        requires
            spec.is_coherent(),
        ensures
            r.method == Method::Get,
            r.path@ == self@.authorized(decision_path(self@, caps@, *spec)),
            texts(r.headers@) == seq![session_header(*spec)],
    {
        let mut path = String::from_str("/video/:/transcode/universal/decision?");
        path.append(self.transcode_query(caps, spec).as_str());
        let mut header = String::from_str("X-Plex-Session-Identifier: ");
        header.append(spec.session);
        let mut headers: Vec<String> = Vec::new();
        headers.push(header);
        assert(texts(headers@) =~= seq![session_header(*spec)]);
        Request { method: Method::Get, path: self.with_token(path.as_str()), headers }
    }

    /// The address that a registered session streams from.
    pub fn transcode_start_url(&self, caps: &Caps, spec: &TranscodeSpec<'_>) -> (r: StreamUrl)
        requires
            spec.is_coherent(),
        ensures
            r.origin == self.server(),
            r.path@ == self@.authorized(start_path(self@, caps@, *spec)),
    {
        let endpoint = match spec.delivery {
            TranscodeDelivery::ProgressiveMkv => "start.mkv",
            TranscodeDelivery::FixedHls { .. } => "start.m3u8",
        };
        let mut path = String::from_str("/video/:/transcode/universal/");
        path.append(endpoint);
        path.append("?");
        path.append(self.transcode_query(caps, spec).as_str());
        StreamUrl { origin: self.origin(), path: self.with_token(path.as_str()) }
    }

    /// Frees the encoder of a session and the bandwidth that the server charged to it.
    pub fn transcode_stop(&self, session: &str) -> (r: Request)
        ensures
            r.method == Method::Get,
            r.path@ == self@.authorized(
                path_with_query(
                    "/video/:/transcode/universal/stop"@,
                    stop_params(self@, session@, true),
                ),
            ),
            r.headers@.len() == 0,
    {
        self.get(self.transcode_stop_query(session, true).as_str())
    }

    /// Frees the encoder of a session and leaves its bandwidth charged: what streams the source
    /// after it goes on borrowing it.
    pub fn transcode_stop_physical(&self, session: &str) -> (r: Request)
        ensures
            r.method == Method::Get,
            r.path@ == self@.authorized(
                path_with_query(
                    "/video/:/transcode/universal/stop"@,
                    stop_params(self@, session@, false),
                ),
            ),
            r.headers@.len() == 0,
    {
        self.get(self.transcode_stop_query(session, false).as_str())
    }

    /// The path of a stop, with its query.
    pub fn transcode_stop_query(&self, session: &str, close_resource: bool) -> (r: String)
        ensures
            r@ == path_with_query(
                "/video/:/transcode/universal/stop"@,
                stop_params(self@, session@, close_resource),
            ),
    {
        let q = QueryBuilder::new("/video/:/transcode/universal/stop").with_str(
            "session",
            session,
        ).with_int(
            "closeResourceSession",
            if close_resource {
                1
            } else {
                0
            },
        ).with_str("X-Plex-Session-Identifier", session).with_str(
            "X-Plex-Client-Identifier",
            self.client_id(),
        );
        assert(q.params() =~= stop_params(self@, session@, close_resource));
        q.build()
    }

    /// Closes the resource that a session was charged to. See
    /// [`Client::transcode_resource_reconciled`] for the answer.
    pub fn resource_close(&self, session: &str) -> (r: Request)
        ensures
            r.method == Method::Post,
            r.path@ == self@.authorized(
                path_with_query("/status/sessions/close"@, close_params(session@)),
            ),
            r.headers@.len() == 0,
    {
        let q = QueryBuilder::new("/status/sessions/close").with_str(
            "X-Plex-Session-Identifier",
            session,
        );
        assert(q.params() =~= close_params(session@));
        let path = self.with_token(q.build().as_str());
        Request { method: Method::Post, path, headers: Vec::new() }
    }

    /// Whether the answer to [`Client::resource_close`] says that the resource is closed: it was
    /// closed now, or was not there any more. Any other status, or none, says nothing.
    pub fn transcode_resource_reconciled(status: Option<u16>) -> (r: Option<bool>)
        ensures
            r == reconciled(status),
    {
        match status {
            Some(status) => if accepted(status) || status == 404 {
                Some(true)
            } else {
                None
            },
            None => None,
        }
    }

    /// Asks whether the server still has the encoder of a session. See
    /// [`Client::transcode_session_present`] for the answer.
    pub fn session_ping(&self, session: &str) -> (r: Request)
        ensures
            r.method == Method::Get,
            r.path@ == self@.authorized(
                path_with_query("/video/:/transcode/universal/ping"@, ping_params(session@)),
            ),
            r.headers@.len() == 0,
    {
        let q = QueryBuilder::new("/video/:/transcode/universal/ping").with_str(
            "session",
            session,
        );
        assert(q.params() =~= ping_params(session@));
        self.get(q.build().as_str())
    }

    /// What the answer to [`Client::session_ping`] says: the encoder is there, or it is not. Any
    /// other status, or none, leaves it unknown.
    pub fn transcode_session_present(status: Option<u16>) -> (r: Option<bool>)
        ensures
            r == present(status),
    {
        match status {
            Some(status) => if accepted(status) {
                Some(true)
            } else if status == 404 {
                Some(false)
            } else {
                None
            },
            None => None,
        }
    }
}

} // verus!
