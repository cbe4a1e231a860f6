//! What a capability profile claims, list by list and clause by clause.
use vstd::prelude::*;

use crate::devcaps::CapsView;
use crate::plex::params::TranscodeDelivery;
use crate::plex::transcoder::{
    container_text, direct_video, encodable_audio, limitation_text, profile_text, protocol_text,
    target_audio, target_text, target_video,
};
use crate::text::{decimal_nat, joined};
use crate::text_laws::law_joining_adds_one_separator;

verus! {

/// H.264 plays directly on every set, HEVC exactly where it is decoded. A progressive transcode
/// may produce HEVC exactly where it is decoded, and before H.264; a segmented one produces H.264.
pub proof fn law_video_lists(caps: CapsView, delivery: TranscodeDelivery)
    ensures
        ({
            let h264 = seq!['h', '2', '6', '4'];
            let hevc = seq!['h', 'e', 'v', 'c'];
            &&& caps.hevc ==> direct_video(caps) == seq![h264, hevc]
            &&& !caps.hevc ==> direct_video(caps) == seq![h264]
            &&& caps.hevc && delivery is ProgressiveMkv ==> target_video(caps, delivery) == seq![
                hevc,
                h264,
            ]
            &&& !caps.hevc || delivery is FixedHls ==> target_video(caps, delivery) == seq![h264]
        }),
{
    reveal_strlit("h264");
    reveal_strlit("hevc");
    assert("h264"@ =~= seq!['h', '2', '6', '4']);
    assert("hevc"@ =~= seq!['h', 'e', 'v', 'c']);
    assert("h264"@[1] == '2' && "hevc"@[1] == 'e');
}

/// A progressive transcode may produce `ac3`, `eac3` and `aac`, in this order, each exactly where
/// the set has it; a segmented one produces `aac`.
pub proof fn law_audio_lists(caps: CapsView, delivery: TranscodeDelivery)
    ensures
        ({
            let one = |codec: Seq<char>|
                if caps.has_audio(codec) {
                    seq![codec]
                } else {
                    Seq::<Seq<char>>::empty()
                };
            let ac3 = seq!['a', 'c', '3'];
            let eac3 = seq!['e', 'a', 'c', '3'];
            let aac = seq!['a', 'a', 'c'];
            &&& delivery is ProgressiveMkv ==> target_audio(caps, delivery) == one(ac3) + one(eac3)
                + one(aac)
            &&& delivery is FixedHls ==> target_audio(caps, delivery) == seq![aac]
        }),
{
    reveal_strlit("ac3");
    reveal_strlit("eac3");
    reveal_strlit("aac");
    assert("ac3"@ =~= seq!['a', 'c', '3']);
    assert("eac3"@ =~= seq!['e', 'a', 'c', '3']);
    assert("aac"@ =~= seq!['a', 'a', 'c']);
    let keep = |c: Seq<char>| caps.has_audio(c);
    let one = |codec: Seq<char>|
        if caps.has_audio(codec) {
            seq![codec]
        } else {
            Seq::<Seq<char>>::empty()
        };
    let all = encodable_audio();
    reveal(Seq::filter);
    assert(all.drop_last() =~= seq![all[0], all[1]]);
    assert(all.drop_last().drop_last() =~= seq![all[0]]);
    assert(all.drop_last().drop_last().drop_last() =~= Seq::empty());
    reveal_with_fuel(Seq::filter, 4);
    assert(all.filter(keep) =~= one(all[0]) + one(all[1]) + one(all[2]));
}

proof fn lemma_three(a: Seq<char>, b: Seq<char>, c: Seq<char>, sep: char)
    ensures
        joined(seq![a, b, c], sep) == a.push(sep) + b.push(sep) + c,
{
    law_joining_adds_one_separator(seq![a], b, sep);
    law_joining_adds_one_separator(seq![a].push(b), c, sep);
    assert(seq![a].push(b).push(c) =~= seq![a, b, c]);
    assert(joined(seq![a, b, c], sep) =~= a.push(sep) + b.push(sep) + c);
}

proof fn lemma_five(
    a: Seq<char>,
    b: Seq<char>,
    c: Seq<char>,
    d: Seq<char>,
    e: Seq<char>,
    sep: char,
)
    ensures
        joined(seq![a, b, c, d, e], sep) == a.push(sep) + b.push(sep) + c.push(sep) + d.push(sep)
            + e,
{
    lemma_three(a, b, c, sep);
    law_joining_adds_one_separator(seq![a, b, c], d, sep);
    law_joining_adds_one_separator(seq![a, b, c].push(d), e, sep);
    assert(seq![a, b, c].push(d).push(e) =~= seq![a, b, c, d, e]);
    assert(joined(seq![a, b, c, d, e], sep) =~= a.push(sep) + b.push(sep) + c.push(sep) + d.push(
        sep,
    ) + e);
}

/// The clause of a bound.
pub open spec fn bound_clause(name: Seq<char>, value: nat) -> Seq<char> {
    joined(
        seq![
            "add-limitation(scope=videoCodec"@,
            "scopeName=*"@,
            "type=upperBound"@,
            "name="@ + name,
            "value="@ + decimal_nat(value),
        ],
        '&',
    ) + "&replace=true)"@
}

proof fn lemma_bound_clause(name: Seq<char>, value: nat)
    ensures
        limitation_text(name, value) == seq!['+'] + bound_clause(name, value),
{
    reveal_strlit("add-limitation(scope=videoCodec");
    reveal_strlit("scopeName=*");
    reveal_strlit("type=upperBound");
    reveal_strlit("name=");
    reveal_strlit("value=");
    reveal_strlit("&value=");
    reveal_strlit("&replace=true)");
    reveal_strlit("+add-limitation(scope=videoCodec&scopeName=*&type=upperBound&name=");
    let a = "add-limitation(scope=videoCodec"@;
    let b = "scopeName=*"@;
    let c = "type=upperBound"@;
    lemma_five(a, b, c, "name="@ + name, "value="@ + decimal_nat(value), '&');
    let head = seq!['+'] + a.push('&') + b.push('&') + c.push('&') + "name="@;
    assert("+add-limitation(scope=videoCodec&scopeName=*&type=upperBound&name="@ =~= head);
    assert("&value="@ =~= seq!['&'] + "value="@);
    assert(limitation_text(name, value) =~= seq!['+'] + bound_clause(name, value));
}

/// The clause of what plays directly.
pub open spec fn direct_clause(caps: CapsView) -> Seq<char> {
    joined(
        seq![
            "add-direct-play-profile(type=videoProfile"@,
            "container=mkv,mp4"@,
            "videoCodec="@ + joined(direct_video(caps), ','),
            "audioCodec="@ + caps.audio,
            "subtitleCodec=srt,subrip,ass,ssa)"@,
        ],
        '&',
    )
}

proof fn lemma_direct_clause(caps: CapsView)
    ensures
        "add-direct-play-profile(type=videoProfile&container=mkv,mp4&videoCodec="@ + joined(
            direct_video(caps),
            ',',
        ) + "&audioCodec="@ + caps.audio + "&subtitleCodec=srt,subrip,ass,ssa)"@ == direct_clause(
            caps,
        ),
{
    reveal_strlit("add-direct-play-profile(type=videoProfile&container=mkv,mp4&videoCodec=");
    reveal_strlit("add-direct-play-profile(type=videoProfile");
    reveal_strlit("container=mkv,mp4");
    reveal_strlit("videoCodec=");
    reveal_strlit("audioCodec=");
    reveal_strlit("&audioCodec=");
    reveal_strlit("subtitleCodec=srt,subrip,ass,ssa)");
    reveal_strlit("&subtitleCodec=srt,subrip,ass,ssa)");
    let a = "add-direct-play-profile(type=videoProfile"@;
    let b = "container=mkv,mp4"@;
    let video = joined(direct_video(caps), ',');
    lemma_five(
        a,
        b,
        "videoCodec="@ + video,
        "audioCodec="@ + caps.audio,
        "subtitleCodec=srt,subrip,ass,ssa)"@,
        '&',
    );
    let head = a.push('&') + b.push('&') + "videoCodec="@;
    assert("add-direct-play-profile(type=videoProfile&container=mkv,mp4&videoCodec="@ =~= head);
    assert("&audioCodec="@ =~= seq!['&'] + "audioCodec="@);
    assert("&subtitleCodec=srt,subrip,ass,ssa)"@ =~= seq!['&']
        + "subtitleCodec=srt,subrip,ass,ssa)"@);
    assert(head + video + "&audioCodec="@ + caps.audio + "&subtitleCodec=srt,subrip,ass,ssa)"@
        =~= direct_clause(caps));
}

/// The clause of what a transcode may produce.
pub open spec fn target_clause(
    protocol: Seq<char>,
    container: Seq<char>,
    video: Seq<Seq<char>>,
    audio: Seq<Seq<char>>,
) -> Seq<char> {
    joined(
        seq![
            "add-transcode-target(type=videoProfile"@,
            "context=streaming"@,
            "protocol="@ + protocol,
            "container="@ + container,
            "videoCodec="@ + joined(video, ','),
        ],
        '&',
    ) + "&audioCodec="@ + joined(audio, ',') + ")"@
}

proof fn lemma_target_clause(caps: CapsView, delivery: TranscodeDelivery)
    ensures
        target_text(caps, delivery) == target_clause(
            protocol_text(delivery),
            container_text(delivery),
            target_video(caps, delivery),
            target_audio(caps, delivery),
        ),
{
    reveal_strlit("add-transcode-target(type=videoProfile&context=streaming&protocol=");
    reveal_strlit("add-transcode-target(type=videoProfile");
    reveal_strlit("context=streaming");
    reveal_strlit("protocol=");
    reveal_strlit("container=");
    reveal_strlit("&container=");
    reveal_strlit("videoCodec=");
    reveal_strlit("&videoCodec=");
    let a = "add-transcode-target(type=videoProfile"@;
    let b = "context=streaming"@;
    let protocol = protocol_text(delivery);
    let container = container_text(delivery);
    let video = joined(target_video(caps, delivery), ',');
    lemma_five(
        a,
        b,
        "protocol="@ + protocol,
        "container="@ + container,
        "videoCodec="@ + video,
        '&',
    );
    let head = a.push('&') + b.push('&') + "protocol="@;
    assert("add-transcode-target(type=videoProfile&context=streaming&protocol="@ =~= head);
    assert("&container="@ =~= seq!['&'] + "container="@);
    assert("&videoCodec="@ =~= seq!['&'] + "videoCodec="@);
    let front = head + protocol + "&container="@ + container + "&videoCodec="@ + video;
    assert(front =~= a.push('&') + b.push('&') + ("protocol="@ + protocol).push('&') + (
    "container="@ + container).push('&') + ("videoCodec="@ + video));
}

/// A profile is five clauses: what plays directly, the largest width, the largest height, ten
/// bits, and what a transcode may produce. The bounds are the set's own, its width and its height
/// each in its own clause. A progressive delivery is Matroska over HTTP, a segmented one a
/// transport stream over HLS.
pub proof fn law_profile_is_five_clauses(caps: CapsView, delivery: TranscodeDelivery)
    ensures
        ({
            let (protocol, container) = match delivery {
                TranscodeDelivery::ProgressiveMkv => ("http"@, "matroska"@),
                TranscodeDelivery::FixedHls { .. } => ("hls"@, "mpegts"@),
            };
            profile_text(caps, delivery) == joined(
                seq![
                    direct_clause(caps),
                    bound_clause("video.width"@, caps.hevc_max.0 as nat),
                    bound_clause("video.height"@, caps.hevc_max.1 as nat),
                    bound_clause("video.bitDepth"@, 10),
                    target_clause(
                        protocol,
                        container,
                        target_video(caps, delivery),
                        target_audio(caps, delivery),
                    ),
                ],
                '+',
            )
        }),
{
    reveal_strlit("+");
    let width = bound_clause("video.width"@, caps.hevc_max.0 as nat);
    let height = bound_clause("video.height"@, caps.hevc_max.1 as nat);
    let depth = bound_clause("video.bitDepth"@, 10);
    let target = target_text(caps, delivery);
    lemma_direct_clause(caps);
    lemma_bound_clause("video.width"@, caps.hevc_max.0 as nat);
    lemma_bound_clause("video.height"@, caps.hevc_max.1 as nat);
    lemma_bound_clause("video.bitDepth"@, 10);
    lemma_target_clause(caps, delivery);
    lemma_five(direct_clause(caps), width, height, depth, target, '+');
    assert("+"@ =~= seq!['+']);
    assert(profile_text(caps, delivery) =~= direct_clause(caps).push('+') + width.push('+')
        + height.push('+') + depth.push('+') + target);
}

} // verus!
