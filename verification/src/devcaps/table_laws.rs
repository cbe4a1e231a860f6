//! What a codec table says, row by row and letter by letter.
use vstd::prelude::*;

use crate::devcaps::laws::{law_audio_is_what_is_fed_and_listed, law_merged_is_the_tightest_stated};
use crate::devcaps::{
    bool_text, bound, canonical, codec_of, device_caps, feedable, folded, is_name_char,
    lemma_lists_push, lists_audio, measured_text, merged, parsed, playable, row_text, size_text,
    stated, tighter, Axis, CapsView, Codec, TableRead, TableView, VideoRowView,
};
use crate::plex::transcoder::DP_AUDIO_CODECS;
use crate::text::{decimal_nat, joined, law_split_undoes_join, split_on};
use crate::text_laws::{law_decimal_reads_back, law_joining_adds_one_separator};

verus! {

// ---- names ----------------------------------------------------------------------------------
/// A name is folded letter by letter: dots and dashes go, capitals become small, and any other
/// character stays.
pub proof fn law_folding_goes_letter_by_letter(name: Seq<char>, c: char)
    ensures
        folded(Seq::<char>::empty()) == Seq::<char>::empty(),
        c == '.' || c == '-' ==> folded(name.push(c)) == folded(name),
        c != '.' && c != '-' ==> {
            &&& folded(name.push(c)).len() == folded(name).len() + 1
            &&& folded(name.push(c)).drop_last() == folded(name)
            &&& 'A' <= c <= 'Z' ==> folded(name.push(c)).last() as u32 == c as u32 + 32
            &&& !('A' <= c <= 'Z') ==> folded(name.push(c)).last() == c
        },
{
    reveal(Seq::filter);
    let keep = |c: char| is_name_char(c);
    assert(name.push(c).drop_last() =~= name);
    assert(folded(Seq::<char>::empty()) =~= Seq::<char>::empty());
    if c == '.' || c == '-' {
        assert(name.push(c).filter(keep) =~= name.filter(keep));
    } else {
        assert(name.push(c).filter(keep) =~= name.filter(keep).push(c));
        assert(folded(name.push(c)).drop_last() =~= folded(name));
    }
}

/// Every name that folds to something in `dts` is the one codec `dca`. Any other is as it folds.
pub proof fn law_dts_family_is_one_codec(name: Seq<char>)
    ensures
        ({
            let key = folded(name);
            let is_dts = key.len() >= 3 && key[0] == 'd' && key[1] == 't' && key[2] == 's';
            &&& is_dts ==> canonical(name) == seq!['d', 'c', 'a']
            &&& !is_dts ==> canonical(name) == key
        }),
{
    reveal_strlit("dts");
    reveal_strlit("dca");
    let key = folded(name);
    assert("dca"@ =~= seq!['d', 'c', 'a']);
    if key.len() >= 3 {
        let cut = key.take(3);
        assert(cut[0] == key[0] && cut[1] == key[1] && cut[2] == key[2]);
        if key[0] == 'd' && key[1] == 't' && key[2] == 's' {
            assert(cut =~= "dts"@);
        }
    }
}

/// Which decoder a row describes goes by its folded name alone: `h265` and `hevc` are one, `h264`
/// another, `vp9` a third, and every other name is none of them.
pub proof fn law_row_describes_the_decoder_it_names(name: Seq<char>)
    ensures
        ({
            let key = folded(name);
            &&& codec_of(name) == Codec::Hevc <==> key == seq!['h', '2', '6', '5'] || key == seq![
                'h',
                'e',
                'v',
                'c',
            ]
            &&& codec_of(name) == Codec::H264 <==> key == seq!['h', '2', '6', '4']
            &&& codec_of(name) == Codec::Vp9 <==> key == seq!['v', 'p', '9']
        }),
{
    law_dts_family_is_one_codec(name);
    reveal_strlit("h265");
    reveal_strlit("hevc");
    reveal_strlit("h264");
    reveal_strlit("vp9");
    assert("h265"@ =~= seq!['h', '2', '6', '5']);
    assert("hevc"@ =~= seq!['h', 'e', 'v', 'c']);
    assert("h264"@ =~= seq!['h', '2', '6', '4']);
    assert("vp9"@ =~= seq!['v', 'p', '9']);
    let dca = seq!['d', 'c', 'a'];
    assert(dca[0] == 'd');
    assert("h265"@[0] == 'h' && "hevc"@[0] == 'h' && "h264"@[0] == 'h' && "vp9"@[0] == 'v');
    assert("h264"@[3] == '4' && "h265"@[3] == '5' && "hevc"@[3] == 'c');
}

// ---- the video rows -------------------------------------------------------------------------
/// The tighter of two values is the smaller of those that were stated.
pub proof fn law_tighter_is_the_smaller_stated(a: u32, b: u32)
    ensures
        a > 0 && b > 0 ==> tighter(a, b) <= a && tighter(a, b) <= b && (tighter(a, b) == a
            || tighter(a, b) == b),
        a == 0 ==> tighter(a, b) == b,
        b == 0 ==> tighter(a, b) == a,
{
}

/// A row of the one decoder or of the other.
pub open spec fn bounds_a_frame(row: VideoRowView) -> bool {
    codec_of(row.name) == Codec::H264 || codec_of(row.name) == Codec::Hevc
}

proof fn lemma_bound(rows: Seq<VideoRowView>, axis: Axis)
    ensures
        bound(rows, axis) > 0 <==> exists|i: int|
            0 <= i < rows.len() && #[trigger] bounds_a_frame(rows[i]) && stated(rows[i], axis) > 0,
{
    law_merged_is_the_tightest_stated(rows, Codec::H264, axis);
    law_merged_is_the_tightest_stated(rows, Codec::Hevc, axis);
    if bound(rows, axis) > 0 {
        let codec = if merged(rows, Codec::H264, axis) > 0 {
            Codec::H264
        } else {
            Codec::Hevc
        };
        let i = choose|i: int|
            0 <= i < rows.len() && codec_of(#[trigger] rows[i].name) == codec && stated(
                rows[i],
                axis,
            ) == merged(rows, codec, axis);
        assert(bounds_a_frame(rows[i]));
    }
    if exists|i: int|
        0 <= i < rows.len() && #[trigger] bounds_a_frame(rows[i]) && stated(rows[i], axis) > 0 {
        let i = choose|i: int|
            0 <= i < rows.len() && #[trigger] bounds_a_frame(rows[i]) && stated(rows[i], axis)
                > 0;
        assert(codec_of(rows[i].name) == Codec::H264 || codec_of(rows[i].name) == Codec::Hevc);
    }
}

/// A table is understood exactly where some row names H.264, and some row of H.264 or HEVC states
/// a width, and some row of either a height.
pub proof fn law_table_is_understood_where_it_bounds_a_frame(t: TableView)
    ensures
        parsed(t) is Some <==> {
            &&& exists|i: int|
                0 <= i < t.video.len() && codec_of(#[trigger] t.video[i].name) == Codec::H264
            &&& exists|i: int|
                0 <= i < t.video.len() && #[trigger] bounds_a_frame(t.video[i])
                    && t.video[i].max_width > 0
            &&& exists|i: int|
                0 <= i < t.video.len() && #[trigger] bounds_a_frame(t.video[i])
                    && t.video[i].max_height > 0
        },
{
    lemma_bound(t.video, Axis::Width);
    lemma_bound(t.video, Axis::Height);
    if bound(t.video, Axis::Width) > 0 {
        let i = choose|i: int|
            0 <= i < t.video.len() && #[trigger] bounds_a_frame(t.video[i]) && stated(
                t.video[i],
                Axis::Width,
            ) > 0;
        assert(t.video[i].max_width > 0);
    }
    if bound(t.video, Axis::Height) > 0 {
        let i = choose|i: int|
            0 <= i < t.video.len() && #[trigger] bounds_a_frame(t.video[i]) && stated(
                t.video[i],
                Axis::Height,
            ) > 0;
        assert(t.video[i].max_height > 0);
    }
    if exists|i: int|
        0 <= i < t.video.len() && #[trigger] bounds_a_frame(t.video[i]) && t.video[i].max_width
            > 0 {
        let i = choose|i: int|
            0 <= i < t.video.len() && #[trigger] bounds_a_frame(t.video[i])
                && t.video[i].max_width > 0;
        assert(stated(t.video[i], Axis::Width) > 0);
    }
    if exists|i: int|
        0 <= i < t.video.len() && #[trigger] bounds_a_frame(t.video[i]) && t.video[i].max_height
            > 0 {
        let i = choose|i: int|
            0 <= i < t.video.len() && #[trigger] bounds_a_frame(t.video[i])
                && t.video[i].max_height > 0;
        assert(stated(t.video[i], Axis::Height) > 0);
    }
}

/// A set decodes HEVC exactly where some row's name, without dots and dashes and in small letters,
/// is `h265` or `hevc`, and VP9 exactly where one is `vp9`. No other row has a say in either.
pub proof fn law_decoders_are_those_that_rows_name(t: TableView)
    requires
        parsed(t) is Some,
    ensures
        (parsed(t)->0).hevc <==> exists|i: int|
            0 <= i < t.video.len() && (#[trigger] folded(t.video[i].name) == seq![
                'h',
                '2',
                '6',
                '5',
            ] || folded(t.video[i].name) == seq!['h', 'e', 'v', 'c']),
        (parsed(t)->0).vp9 <==> exists|i: int|
            0 <= i < t.video.len() && #[trigger] folded(t.video[i].name) == seq!['v', 'p', '9'],
{
    let rows = t.video;
    let caps = parsed(t)->0;
    let hevc_row = |i: int|
        folded(rows[i].name) == seq!['h', '2', '6', '5'] || folded(rows[i].name) == seq![
            'h',
            'e',
            'v',
            'c',
        ];
    assert forall|i: int| 0 <= i < rows.len() implies #[trigger] hevc_row(i) == (codec_of(
        rows[i].name,
    ) == Codec::Hevc) && (folded(rows[i].name) == seq!['v', 'p', '9']) == (codec_of(rows[i].name)
        == Codec::Vp9) by {
        law_row_describes_the_decoder_it_names(rows[i].name);
    }
    if caps.hevc {
        let i = choose|i: int|
            0 <= i < rows.len() && codec_of(#[trigger] rows[i].name) == Codec::Hevc;
        assert(hevc_row(i));
        assert(folded(rows[i].name) == folded(t.video[i].name));
    }
    if exists|i: int|
        0 <= i < t.video.len() && (#[trigger] folded(t.video[i].name) == seq!['h', '2', '6', '5']
            || folded(t.video[i].name) == seq!['h', 'e', 'v', 'c']) {
        let i = choose|i: int|
            0 <= i < t.video.len() && (#[trigger] folded(t.video[i].name) == seq![
                'h',
                '2',
                '6',
                '5',
            ] || folded(t.video[i].name) == seq!['h', 'e', 'v', 'c']);
        assert(hevc_row(i));
        assert(codec_of(rows[i].name) == Codec::Hevc);
    }
    if caps.vp9 {
        let i = choose|i: int|
            0 <= i < rows.len() && codec_of(#[trigger] rows[i].name) == Codec::Vp9;
        assert(hevc_row(i) == (codec_of(rows[i].name) == Codec::Hevc));
        assert(folded(t.video[i].name) == seq!['v', 'p', '9']);
    }
    if exists|i: int|
        0 <= i < t.video.len() && #[trigger] folded(t.video[i].name) == seq!['v', 'p', '9'] {
        let i = choose|i: int|
            0 <= i < t.video.len() && #[trigger] folded(t.video[i].name) == seq!['v', 'p', '9'];
        assert(hevc_row(i) == (codec_of(rows[i].name) == Codec::Hevc));
        assert(codec_of(rows[i].name) == Codec::Vp9);
    }
}

/// A row of any other codec changes nothing, and a row of VP9 nothing but whether VP9 is decoded.
pub proof fn law_other_codecs_change_nothing(t: TableView, row: VideoRowView)
    requires
        ({
            let key = folded(row.name);
            key != seq!['h', '2', '6', '4'] && key != seq!['h', '2', '6', '5'] && key != seq![
                'h',
                'e',
                'v',
                'c',
            ]
        }),
    ensures
        ({
            let grown = parsed(TableView { video: t.video.push(row), ..t });
            match parsed(t) {
                None => grown is None,
                Some(caps) => grown matches Some(more) && {
                    &&& more.hevc == caps.hevc
                    &&& more.hevc_max == caps.hevc_max
                    &&& more.h264_row == caps.h264_row
                    &&& more.hevc_row == caps.hevc_row
                    &&& more.audio == caps.audio
                    &&& more.vp9 <==> caps.vp9 || folded(row.name) == seq!['v', 'p', '9']
                },
            }
        }),
{
    let rows = t.video.push(row);
    law_row_describes_the_decoder_it_names(row.name);
    assert(rows.drop_last() =~= t.video);
    lemma_lists_push(rows, Codec::H264);
    lemma_lists_push(rows, Codec::Hevc);
    lemma_lists_push(rows, Codec::Vp9);
}

/// Whether `value` is the tightest that a row of this decoder states on an axis, or 0 where none
/// does.
pub open spec fn is_tightest(
    rows: Seq<VideoRowView>,
    codec: Codec,
    axis: Axis,
    value: u32,
) -> bool {
    &&& forall|i: int|
        0 <= i < rows.len() && codec_of(#[trigger] rows[i].name) == codec && stated(rows[i], axis)
            > 0 ==> 0 < value <= stated(rows[i], axis)
    &&& value > 0 ==> exists|i: int|
        0 <= i < rows.len() && codec_of(#[trigger] rows[i].name) == codec && stated(rows[i], axis)
            == value
}

/// Each decoder's row holds the tightest width, height and frame rate, in that order, that the
/// table states for it.
pub proof fn law_decoder_rows_are_the_tightest_stated(t: TableView)
    requires
        parsed(t) is Some,
    ensures
        ({
            let caps = parsed(t)->0;
            &&& is_tightest(t.video, Codec::H264, Axis::Width, caps.h264_row.0)
            &&& is_tightest(t.video, Codec::H264, Axis::Height, caps.h264_row.1)
            &&& is_tightest(t.video, Codec::H264, Axis::FrameRate, caps.h264_row.2)
            &&& is_tightest(t.video, Codec::Hevc, Axis::Width, caps.hevc_row.0)
            &&& is_tightest(t.video, Codec::Hevc, Axis::Height, caps.hevc_row.1)
            &&& is_tightest(t.video, Codec::Hevc, Axis::FrameRate, caps.hevc_row.2)
        }),
        forall|row: VideoRowView| stated(row, Axis::Width) == #[trigger] row.max_width,
        forall|row: VideoRowView| stated(row, Axis::Height) == #[trigger] row.max_height,
        forall|row: VideoRowView| stated(row, Axis::FrameRate) == #[trigger] row.max_frame_rate,
{
    law_merged_is_the_tightest_stated(t.video, Codec::H264, Axis::Width);
    law_merged_is_the_tightest_stated(t.video, Codec::H264, Axis::Height);
    law_merged_is_the_tightest_stated(t.video, Codec::H264, Axis::FrameRate);
    law_merged_is_the_tightest_stated(t.video, Codec::Hevc, Axis::Width);
    law_merged_is_the_tightest_stated(t.video, Codec::Hevc, Axis::Height);
    law_merged_is_the_tightest_stated(t.video, Codec::Hevc, Axis::FrameRate);
}

/// The frame that both decoders can take is, on each axis, the smaller of the two decoders' own
/// where both state one, and the one that is stated where only one is.
pub proof fn law_shared_bound_is_the_smaller_of_both(t: TableView)
    requires
        parsed(t) is Some,
    ensures
        ({
            let caps = parsed(t)->0;
            let a = caps.h264_row;
            let b = caps.hevc_row;
            let w = caps.hevc_max.0;
            let h = caps.hevc_max.1;
            &&& w > 0 && h > 0
            &&& a.0 > 0 ==> w <= a.0
            &&& b.0 > 0 ==> w <= b.0
            &&& w == a.0 || w == b.0
            &&& a.1 > 0 ==> h <= a.1
            &&& b.1 > 0 ==> h <= b.1
            &&& h == a.1 || h == b.1
        }),
{
}

// ---- the audio rows -------------------------------------------------------------------------
/// The codecs that the pipeline can feed.
proof fn lemma_feedable()
    ensures
        feedable() == seq![
            seq!['a', 'a', 'c'],
            seq!['a', 'c', '3'],
            seq!['e', 'a', 'c', '3'],
            seq!['d', 'c', 'a'],
        ],
        DP_AUDIO_CODECS@ == joined(feedable(), ','),
{
    let parts = seq![
        seq!['a', 'a', 'c'],
        seq!['a', 'c', '3'],
        seq!['e', 'a', 'c', '3'],
        seq!['d', 'c', 'a'],
    ];
    reveal_strlit("aac,ac3,eac3,dca");
    assert(parts.drop_last() =~= seq![
        seq!['a', 'a', 'c'],
        seq!['a', 'c', '3'],
        seq!['e', 'a', 'c', '3'],
    ]);
    assert(parts.drop_last().drop_last() =~= seq![seq!['a', 'a', 'c'], seq!['a', 'c', '3']]);
    assert(parts.drop_last().drop_last().drop_last() =~= seq![seq!['a', 'a', 'c']]);
    reveal_with_fuel(joined, 5);
    assert(joined(parts, ',') =~= "aac,ac3,eac3,dca"@);
    assert(forall|i: int| 0 <= i < parts.len() ==> !(#[trigger] parts[i]).contains(','));
    law_split_undoes_join(parts, ',');
}

/// The audio list holds `aac`, `ac3`, `eac3` and `dca`, in this order, each exactly where some
/// audio row's canonical name is it. A table that lists none of the four gets them all.
pub proof fn law_audio_list_is_in_the_pipelines_order(t: TableView)
    requires
        parsed(t) is Some,
    ensures
        ({
            let aac = seq!['a', 'a', 'c'];
            let ac3 = seq!['a', 'c', '3'];
            let eac3 = seq!['e', 'a', 'c', '3'];
            let dca = seq!['d', 'c', 'a'];
            let none = Seq::<Seq<char>>::empty();
            let one = |codec: Seq<char>|
                if exists|i: int|
                    0 <= i < t.audio.len() && canonical(#[trigger] t.audio[i]) == codec {
                    seq![codec]
                } else {
                    none
                };
            let listed = one(aac) + one(ac3) + one(eac3) + one(dca);
            split_on((parsed(t)->0).audio, ',') == (if listed.len() == 0 {
                seq![aac, ac3, eac3, dca]
            } else {
                listed
            })
        }),
{
    lemma_feedable();
    let all = feedable();
    let keep = |c: Seq<char>| lists_audio(t.audio, c);
    let none = Seq::<Seq<char>>::empty();
    let one = |codec: Seq<char>|
        if exists|i: int| 0 <= i < t.audio.len() && canonical(#[trigger] t.audio[i]) == codec {
            seq![codec]
        } else {
            none
        };
    assert(forall|c: Seq<char>| keep(c) == (#[trigger] one(c) == seq![c]) && (keep(c) || one(c)
        == none)) by {
        assert forall|c: Seq<char>| keep(c) == (#[trigger] one(c) == seq![c]) && (keep(c) || one(c)
            == none) by {
            assert(seq![c].len() == 1);
        }
    }
    reveal(Seq::filter);
    assert(all.drop_last() =~= seq![all[0], all[1], all[2]]);
    assert(all.drop_last().drop_last() =~= seq![all[0], all[1]]);
    assert(all.drop_last().drop_last().drop_last() =~= seq![all[0]]);
    assert(all.drop_last().drop_last().drop_last().drop_last() =~= none);
    reveal_with_fuel(Seq::filter, 5);
    assert(playable(t.audio) =~= all.filter(keep));
    assert(all.filter(keep) =~= one(all[0]) + one(all[1]) + one(all[2]) + one(all[3]));
    law_audio_is_what_is_fed_and_listed(t);
}

/// A set has an audio codec exactly where its comma list has it as a whole part.
pub proof fn law_audio_codec_is_a_whole_part(
    caps: CapsView,
    parts: Seq<Seq<char>>,
    codec: Seq<char>,
)
    requires
        parts.len() > 0,
        forall|i: int| 0 <= i < parts.len() ==> !(#[trigger] parts[i]).contains(','),
        caps.audio == joined(parts, ','),
    ensures
        caps.has_audio(codec) <==> parts.contains(codec),
{
    law_split_undoes_join(parts, ',');
}

/// What the server is asked to encode to is HEVC on a set that decodes it, and H.264 on any other.
pub proof fn law_encode_target_is_decoded(caps: CapsView)
    ensures
        caps.hevc ==> caps.encode_target() == seq!['h', 'e', 'v', 'c'],
        !caps.hevc ==> caps.encode_target() == seq!['h', '2', '6', '4'],
{
    reveal_strlit("hevc");
    reveal_strlit("h264");
    assert("hevc"@ =~= seq!['h', 'e', 'v', 'c']);
    assert("h264"@ =~= seq!['h', '2', '6', '4']);
}

// ---- the log --------------------------------------------------------------------------------
/// Only a table that was read says anything of the device, and it says what it parses to.
pub proof fn law_only_a_table_speaks_for_the_device(read: TableRead)
    ensures
        device_caps(read) is Some ==> read is Read,
        read matches TableRead::Read(table) ==> device_caps(read) == parsed(table@),
{
}

/// The words of a flag.
pub open spec fn flag_word(name: Seq<char>, flag: bool) -> Seq<char> {
    name + (if flag {
        seq!['t', 'r', 'u', 'e']
    } else {
        seq!['f', 'a', 'l', 's', 'e']
    })
}

/// The word of a frame.
pub open spec fn frame_word(width: u32, height: u32) -> Seq<char> {
    decimal_nat(width as nat).push('x') + decimal_nat(height as nat)
}

/// The word of a decoder's row.
pub open spec fn row_word(name: Seq<char>, row: (u32, u32, u32)) -> Seq<char> {
    name + frame_word(row.0, row.1).push('@') + decimal_nat(row.2 as nat)
}

/// Whether a text is one word.
pub open spec fn is_word(s: Seq<char>) -> bool {
    !s.contains(' ')
}

proof fn lemma_number_is_a_word(n: u32)
    ensures
        is_word(decimal_nat(n as nat)),
{
    law_decimal_reads_back(n as nat);
}

proof fn lemma_words_side_by_side(a: Seq<char>, b: Seq<char>)
    requires
        is_word(a),
        is_word(b),
    ensures
        is_word(a + b),
{
    let both = a + b;
    if both.contains(' ') {
        let i = choose|i: int| 0 <= i < both.len() && both[i] == ' ';
        if i < a.len() {
            assert(a[i] == ' ');
        } else {
            assert(b[i - a.len()] == ' ');
        }
    }
}

proof fn lemma_flag_word(line: Seq<char>, spaced: Seq<char>, name: Seq<char>, flag: bool)
    requires
        spaced == seq![' '] + name,
        is_word(name),
    ensures
        line.push(' ') + flag_word(name, flag) == line + spaced + bool_text(flag),
        is_word(flag_word(name, flag)),
{
    reveal_strlit("true");
    reveal_strlit("false");
    let value = if flag {
        seq!['t', 'r', 'u', 'e']
    } else {
        seq!['f', 'a', 'l', 's', 'e']
    };
    assert(bool_text(flag) =~= value);
    assert(is_word(value));
    lemma_words_side_by_side(name, value);
    assert(line.push(' ') + flag_word(name, flag) =~= line + spaced + bool_text(flag));
}

proof fn lemma_frame_word(width: u32, height: u32)
    ensures
        frame_word(width, height) == size_text(width, height),
        is_word(frame_word(width, height)),
{
    reveal_strlit("x");
    lemma_number_is_a_word(width);
    lemma_number_is_a_word(height);
    let w = decimal_nat(width as nat);
    assert(is_word(seq!['x']));
    assert(w.push('x') =~= w + seq!['x']);
    lemma_words_side_by_side(w, seq!['x']);
    lemma_words_side_by_side(w.push('x'), decimal_nat(height as nat));
    assert(frame_word(width, height) =~= size_text(width, height));
}

proof fn lemma_row_word(line: Seq<char>, spaced: Seq<char>, name: Seq<char>, row: (u32, u32, u32))
    requires
        spaced == seq![' '] + name,
        is_word(name),
    ensures
        line.push(' ') + row_word(name, row) == line + spaced + row_text(row),
        is_word(row_word(name, row)),
{
    reveal_strlit("@");
    lemma_frame_word(row.0, row.1);
    lemma_number_is_a_word(row.2);
    let frame = frame_word(row.0, row.1);
    let rate = decimal_nat(row.2 as nat);
    assert(is_word(seq!['@']));
    assert(frame.push('@') =~= frame + seq!['@']);
    lemma_words_side_by_side(frame, seq!['@']);
    lemma_words_side_by_side(name, frame.push('@'));
    lemma_words_side_by_side(name + frame.push('@'), rate);
    assert(row_text(row) =~= frame.push('@') + rate);
    assert(line.push(' ') + row_word(name, row) =~= line + spaced + row_text(row));
}

/// The literals of the line are words with a space before each.
proof fn lemma_literals()
    ensures
        "devcaps: hevc="@ == "devcaps:"@ + (seq![' '] + "hevc="@),
        " hevc="@ == seq![' '] + "hevc="@,
        " "@ == seq![' '],
        " vp9="@ == seq![' '] + "vp9="@,
        " audio="@ == seq![' '] + "audio="@,
        " rows: h264="@ == seq![' '] + "rows:"@ + (seq![' '] + "h264="@),
        " (device table)"@ == seq![' '] + "(device"@ + (seq![' '] + "table)"@),
        is_word("devcaps:"@),
        is_word("hevc="@),
        is_word("vp9="@),
        is_word("audio="@),
        is_word("rows:"@),
        is_word("h264="@),
        is_word("(device"@),
        is_word("table)"@),
{
    reveal_strlit("devcaps:");
    reveal_strlit("hevc=");
    reveal_strlit("vp9=");
    reveal_strlit("audio=");
    reveal_strlit("rows:");
    reveal_strlit("h264=");
    reveal_strlit("(device");
    reveal_strlit("table)");
    reveal_strlit("devcaps: hevc=");
    reveal_strlit(" ");
    reveal_strlit(" vp9=");
    reveal_strlit(" audio=");
    reveal_strlit(" rows: h264=");
    reveal_strlit(" hevc=");
    reveal_strlit(" (device table)");
    assert("devcaps: hevc="@ =~= "devcaps:"@ + (seq![' '] + "hevc="@));
    assert(" hevc="@ =~= seq![' '] + "hevc="@);
    assert(" "@ =~= seq![' ']);
    assert(" vp9="@ =~= seq![' '] + "vp9="@);
    assert(" audio="@ =~= seq![' '] + "audio="@);
    assert(" rows: h264="@ =~= seq![' '] + "rows:"@ + (seq![' '] + "h264="@));
    assert(" (device table)"@ =~= seq![' '] + "(device"@ + (seq![' '] + "table)"@));
}

/// The log line of a device whose table was read, word by word: whether it decodes HEVC, the frame
/// that both decoders take, whether it decodes VP9, its audio codecs, and each decoder's own row.
pub proof fn law_log_line_says_what_was_measured(c: CapsView)
    requires
        !c.audio.contains(' '),
    ensures
        split_on(measured_text(c), ' ') == seq![
            "devcaps:"@,
            flag_word("hevc="@, c.hevc),
            frame_word(c.hevc_max.0, c.hevc_max.1),
            flag_word("vp9="@, c.vp9),
            "audio="@ + c.audio,
            "rows:"@,
            row_word("h264="@, c.h264_row),
            row_word("hevc="@, c.hevc_row),
            "(device"@,
            "table)"@,
        ],
{
    lemma_literals();
    let w0 = "devcaps:"@;
    let w1 = flag_word("hevc="@, c.hevc);
    let w2 = frame_word(c.hevc_max.0, c.hevc_max.1);
    let w3 = flag_word("vp9="@, c.vp9);
    let w4 = "audio="@ + c.audio;
    let w5 = "rows:"@;
    let w6 = row_word("h264="@, c.h264_row);
    let w7 = row_word("hevc="@, c.hevc_row);
    let w8 = "(device"@;
    let w9 = "table)"@;
    let words = seq![w0, w1, w2, w3, w4, w5, w6, w7, w8, w9];

    let t2 = "devcaps: hevc="@ + bool_text(c.hevc);
    lemma_flag_word(w0, seq![' '] + "hevc="@, "hevc="@, c.hevc);
    assert(t2 == w0.push(' ') + w1);
    let t3 = t2 + " "@ + size_text(c.hevc_max.0, c.hevc_max.1);
    lemma_frame_word(c.hevc_max.0, c.hevc_max.1);
    assert(t3 =~= t2.push(' ') + w2);
    let t4 = t3 + " vp9="@ + bool_text(c.vp9);
    lemma_flag_word(t3, " vp9="@, "vp9="@, c.vp9);
    let t5 = t4 + " audio="@ + c.audio;
    assert(t5 =~= t4.push(' ') + w4);
    lemma_words_side_by_side("audio="@, c.audio);
    let t6 = t5.push(' ') + w5;
    let t7 = t5 + " rows: h264="@ + row_text(c.h264_row);
    lemma_row_word(t6, seq![' '] + "h264="@, "h264="@, c.h264_row);
    assert(t6 + (seq![' '] + "h264="@) =~= t5 + " rows: h264="@);
    assert(t7 == t6.push(' ') + w6);
    let t8 = t7 + " hevc="@ + row_text(c.hevc_row);
    lemma_row_word(t7, " hevc="@, "hevc="@, c.hevc_row);
    let t9 = t8.push(' ') + w8;
    assert(t9.push(' ') + w9 =~= t8 + " (device table)"@);
    assert(measured_text(c) == t9.push(' ') + w9);

    let p1 = seq![w0];
    let p2 = p1.push(w1);
    let p3 = p2.push(w2);
    let p4 = p3.push(w3);
    let p5 = p4.push(w4);
    let p6 = p5.push(w5);
    let p7 = p6.push(w6);
    let p8 = p7.push(w7);
    let p9 = p8.push(w8);
    law_joining_adds_one_separator(p1, w1, ' ');
    law_joining_adds_one_separator(p2, w2, ' ');
    law_joining_adds_one_separator(p3, w3, ' ');
    law_joining_adds_one_separator(p4, w4, ' ');
    law_joining_adds_one_separator(p5, w5, ' ');
    law_joining_adds_one_separator(p6, w6, ' ');
    law_joining_adds_one_separator(p7, w7, ' ');
    law_joining_adds_one_separator(p8, w8, ' ');
    law_joining_adds_one_separator(p9, w9, ' ');
    assert(p9.push(w9) =~= words);
    assert(joined(words, ' ') == measured_text(c));
    assert forall|i: int| 0 <= i < words.len() implies !(#[trigger] words[i]).contains(' ') by {
        assert(is_word(words[i]));
    }
    law_split_undoes_join(words, ' ');
}

} // verus!
