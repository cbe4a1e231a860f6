//! What holds of every codec table and of every snapshot.
use vstd::prelude::*;

use crate::devcaps::{
    ascii_lower, canonical, codec_of, device_caps, feedable, folded, is_name_char,
    lemma_lists_push, lists, lists_audio, merged, merged_row, parsed, playable, stated, Axis,
    CapsView, Codec, SnapshotView, TableRead, TableView, VideoRowView,
};
use crate::plex::transcoder::DP_AUDIO_CODECS;
use crate::text::{
    has_prefix, law_split_undoes_join, lemma_filter_contents, lemma_split_parts, split_on,
};

verus! {

/// The merged value of an axis is the tightest that any row of the decoder states: no such row
/// states a smaller one, some row states exactly it, and it is absent only where none states any.
pub proof fn law_merged_is_the_tightest_stated(
    rows: Seq<VideoRowView>,
    codec: Codec,
    axis: Axis,
)
    ensures
        forall|i: int|
            0 <= i < rows.len() && codec_of(#[trigger] rows[i].name) == codec && stated(
                rows[i],
                axis,
            ) > 0 ==> 0 < merged(rows, codec, axis) <= stated(rows[i], axis),
        merged(rows, codec, axis) > 0 ==> exists|i: int|
            0 <= i < rows.len() && codec_of(#[trigger] rows[i].name) == codec && stated(
                rows[i],
                axis,
            ) == merged(rows, codec, axis),
    decreases rows.len(),
{
    if rows.len() > 0 {
        let before = rows.drop_last();
        law_merged_is_the_tightest_stated(before, codec, axis);
        assert forall|i: int|
            0 <= i < rows.len() && codec_of(#[trigger] rows[i].name) == codec && stated(
                rows[i],
                axis,
            ) > 0 implies 0 < merged(rows, codec, axis) <= stated(rows[i], axis) by {
            if i < before.len() {
                assert(before[i] == rows[i]);
                assert(codec_of(before[i].name) == codec);
            }
        }
        if merged(rows, codec, axis) > 0 {
            if codec_of(rows.last().name) == codec && merged(rows, codec, axis) == stated(
                rows.last(),
                axis,
            ) {
                assert(codec_of(rows[rows.len() - 1].name) == codec);
            } else {
                let i = choose|i: int|
                    0 <= i < before.len() && codec_of(#[trigger] before[i].name) == codec && stated(
                        before[i],
                        axis,
                    ) == merged(before, codec, axis);
                assert(rows[i] == before[i]);
                assert(codec_of(rows[i].name) == codec);
            }
        }
    }
}

/// A row that states nothing on an axis takes nothing from the rows that do.
pub proof fn law_silent_row_erases_nothing(
    rows: Seq<VideoRowView>,
    row: VideoRowView,
    codec: Codec,
    axis: Axis,
)
    requires
        stated(row, axis) == 0,
    ensures
        merged(rows.push(row), codec, axis) == merged(rows, codec, axis),
{
    assert(rows.push(row).drop_last() =~= rows);
}

proof fn lemma_merged_by_contents(
    a: Seq<VideoRowView>,
    b: Seq<VideoRowView>,
    codec: Codec,
    axis: Axis,
)
    requires
        forall|row: VideoRowView| a.contains(row) ==> b.contains(row),
    ensures
        merged(a, codec, axis) > 0 ==> 0 < merged(b, codec, axis) <= merged(a, codec, axis),
        lists(a, codec) ==> lists(b, codec),
{
    law_merged_is_the_tightest_stated(a, codec, axis);
    law_merged_is_the_tightest_stated(b, codec, axis);
    if merged(a, codec, axis) > 0 {
        let i = choose|i: int|
            0 <= i < a.len() && codec_of(#[trigger] a[i].name) == codec && stated(a[i], axis)
                == merged(a, codec, axis);
        assert(a.contains(a[i]));
        let j = choose|j: int| 0 <= j < b.len() && b[j] == a[i];
        assert(codec_of(b[j].name) == codec);
    }
    if lists(a, codec) {
        let i = choose|i: int| 0 <= i < a.len() && codec_of(#[trigger] a[i].name) == codec;
        assert(a.contains(a[i]));
        let j = choose|j: int| 0 <= j < b.len() && b[j] == a[i];
        assert(codec_of(b[j].name) == codec);
    }
}

proof fn lemma_rows_by_contents(a: Seq<VideoRowView>, b: Seq<VideoRowView>, codec: Codec)
    requires
        forall|row: VideoRowView| a.contains(row) <==> b.contains(row),
    ensures
        merged_row(a, codec) == merged_row(b, codec),
        lists(a, codec) == lists(b, codec),
{
    lemma_merged_by_contents(a, b, codec, Axis::Width);
    lemma_merged_by_contents(b, a, codec, Axis::Width);
    lemma_merged_by_contents(a, b, codec, Axis::Height);
    lemma_merged_by_contents(b, a, codec, Axis::Height);
    lemma_merged_by_contents(a, b, codec, Axis::FrameRate);
    lemma_merged_by_contents(b, a, codec, Axis::FrameRate);
}

proof fn lemma_lists_audio_by_contents(
    a: Seq<Seq<char>>,
    b: Seq<Seq<char>>,
    codec: Seq<char>,
)
    requires
        forall|name: Seq<char>| a.contains(name) ==> b.contains(name),
    ensures
        lists_audio(a, codec) ==> lists_audio(b, codec),
{
    if lists_audio(a, codec) {
        let i = choose|i: int| 0 <= i < a.len() && canonical(#[trigger] a[i]) == codec;
        assert(a.contains(a[i]));
        let j = choose|j: int| 0 <= j < b.len() && b[j] == a[i];
        assert(canonical(b[j]) == codec);
    }
}

/// A firmware that lists its rows in another order, or one of them twice, has the same
/// capabilities.
pub proof fn law_order_and_repetition_of_rows_mean_nothing(a: TableView, b: TableView)
    requires
        forall|row: VideoRowView| a.video.contains(row) <==> b.video.contains(row),
        forall|name: Seq<char>| a.audio.contains(name) <==> b.audio.contains(name),
    ensures
        parsed(a) == parsed(b),
{
    lemma_rows_by_contents(a.video, b.video, Codec::H264);
    lemma_rows_by_contents(a.video, b.video, Codec::Hevc);
    lemma_rows_by_contents(a.video, b.video, Codec::Vp9);
    let in_a = |c: Seq<char>| lists_audio(a.audio, c);
    let in_b = |c: Seq<char>| lists_audio(b.audio, c);
    assert forall|c: Seq<char>| #[trigger] in_a(c) == in_b(c) by {
        lemma_lists_audio_by_contents(a.audio, b.audio, c);
        lemma_lists_audio_by_contents(b.audio, a.audio, c);
    }
    assert(in_a =~= in_b);
}

/// The bound never claims more than a decoder can take: on each axis it is at most what any H.264
/// or HEVC row states, and some such row states exactly it.
pub proof fn law_bound_claims_no_decoder_too_much(t: TableView)
    requires
        parsed(t) is Some,
    ensures
        ({
            let caps = parsed(t)->0;
            &&& forall|i: int|
                0 <= i < t.video.len() && (codec_of(#[trigger] t.video[i].name) == Codec::H264
                    || codec_of(t.video[i].name) == Codec::Hevc) ==> {
                    &&& t.video[i].max_width > 0 ==> caps.hevc_max.0 <= t.video[i].max_width
                    &&& t.video[i].max_height > 0 ==> caps.hevc_max.1 <= t.video[i].max_height
                }
            &&& exists|i: int|
                0 <= i < t.video.len() && (codec_of(#[trigger] t.video[i].name) == Codec::H264
                    || codec_of(t.video[i].name) == Codec::Hevc) && t.video[i].max_width
                    == caps.hevc_max.0
            &&& exists|i: int|
                0 <= i < t.video.len() && (codec_of(#[trigger] t.video[i].name) == Codec::H264
                    || codec_of(t.video[i].name) == Codec::Hevc) && t.video[i].max_height
                    == caps.hevc_max.1
        }),
{
    law_merged_is_the_tightest_stated(t.video, Codec::H264, Axis::Width);
    law_merged_is_the_tightest_stated(t.video, Codec::Hevc, Axis::Width);
    law_merged_is_the_tightest_stated(t.video, Codec::H264, Axis::Height);
    law_merged_is_the_tightest_stated(t.video, Codec::Hevc, Axis::Height);
    assert forall|i: int|
        0 <= i < t.video.len() && (codec_of(#[trigger] t.video[i].name) == Codec::H264 || codec_of(
            t.video[i].name,
        ) == Codec::Hevc) implies {
        &&& t.video[i].max_width > 0 ==> (parsed(t)->0).hevc_max.0 <= t.video[i].max_width
        &&& t.video[i].max_height > 0 ==> (parsed(t)->0).hevc_max.1 <= t.video[i].max_height
    } by {
        assert(stated(t.video[i], Axis::Width) == t.video[i].max_width);
        assert(stated(t.video[i], Axis::Height) == t.video[i].max_height);
    }
}

/// The audio list holds what is both fed by the pipeline and listed by the table, in the
/// pipeline's order. A table that lists none of it is misread, and gets the pipeline's whole list.
pub proof fn law_audio_is_what_is_fed_and_listed(t: TableView)
    requires
        parsed(t) is Some,
    ensures
        ({
            let caps = parsed(t)->0;
            if playable(t.audio).len() == 0 {
                split_on(caps.audio, ',') == feedable()
            } else {
                &&& split_on(caps.audio, ',') == playable(t.audio)
                &&& forall|codec: Seq<char>| #[trigger]
                    caps.has_audio(codec) <==> feedable().contains(codec) && lists_audio(
                        t.audio,
                        codec,
                    )
            }
        }),
{
    let keep = |c: Seq<char>| lists_audio(t.audio, c);
    let kept = playable(t.audio);
    assert(kept =~= feedable().filter(keep));
    lemma_filter_contents(feedable(), keep);
    if kept.len() > 0 {
        lemma_split_parts(DP_AUDIO_CODECS@, ',');
        assert forall|i: int| 0 <= i < kept.len() implies !(#[trigger] kept[i]).contains(',') by {
            assert(feedable().filter(keep).contains(kept[i]));
            assert(feedable().contains(kept[i]));
            let j = choose|j: int| 0 <= j < feedable().len() && feedable()[j] == kept[i];
            assert(!feedable()[j].contains(','));
        }
        law_split_undoes_join(kept, ',');
    }
}

proof fn lemma_folded_chars(name: Seq<char>)
    ensures
        forall|i: int|
            0 <= i < folded(name).len() ==> is_name_char(#[trigger] folded(name)[i]) && ascii_lower(
                folded(name)[i],
            ) == folded(name)[i],
{
    let keep = |c: char| is_name_char(c);
    let kept = name.filter(keep);
    lemma_filter_contents(name, keep);
    assert forall|i: int| 0 <= i < folded(name).len() implies is_name_char(
        #[trigger] folded(name)[i],
    ) && ascii_lower(folded(name)[i]) == folded(name)[i] by {
        assert(kept.contains(kept[i]));
        assert(keep(kept[i]));
        assert(folded(name)[i] == ascii_lower(kept[i]));
    }
}

proof fn lemma_filter_of_kept(s: Seq<char>, keep: spec_fn(char) -> bool)
    requires
        forall|i: int| 0 <= i < s.len() ==> keep(#[trigger] s[i]),
    ensures
        s.filter(keep) == s,
    decreases s.len(),
{
    reveal(Seq::filter);
    if s.len() > 0 {
        let before = s.drop_last();
        assert forall|i: int| 0 <= i < before.len() implies keep(#[trigger] before[i]) by {
            assert(before[i] == s[i]);
        }
        lemma_filter_of_kept(before, keep);
        assert(keep(s[s.len() - 1]));
        assert(s.filter(keep) =~= s);
    }
}

proof fn lemma_folded_stays(s: Seq<char>)
    requires
        forall|i: int|
            0 <= i < s.len() ==> is_name_char(#[trigger] s[i]) && ascii_lower(s[i]) == s[i],
    ensures
        folded(s) == s,
{
    let keep = |c: char| is_name_char(c);
    assert forall|i: int| 0 <= i < s.len() implies keep(#[trigger] s[i]) by {
        assert(is_name_char(s[i]));
    }
    lemma_filter_of_kept(s, keep);
    assert(folded(s) =~= s);
}

/// A canonical name is its own canonical name.
pub proof fn law_canonical_names_stay(name: Seq<char>)
    ensures
        canonical(canonical(name)) == canonical(name),
{
    reveal_strlit("dca");
    reveal_strlit("dts");
    lemma_folded_chars(name);
    lemma_folded_stays(canonical(name));
    if has_prefix(folded(name), "dts"@) {
        let cut = "dca"@.take(3);
        assert(cut[1] == 'c');
        assert("dts"@[1] == 't');
    }
}

/// A video row without a name says nothing of any decoder, whatever its numbers.
pub proof fn law_nameless_row_says_nothing(t: TableView, row: VideoRowView)
    requires
        row.name.len() == 0,
    ensures
        parsed(TableView { video: t.video.push(row), ..t }) == parsed(t),
{
    let rows = t.video.push(row);
    reveal(Seq::filter);
    reveal_strlit("dts");
    reveal_strlit("h264");
    reveal_strlit("h265");
    reveal_strlit("hevc");
    reveal_strlit("vp9");
    assert(folded(row.name).len() == 0);
    assert(codec_of(row.name) == Codec::Other);
    assert(rows.drop_last() =~= t.video);
    lemma_lists_push(rows, Codec::H264);
    lemma_lists_push(rows, Codec::Hevc);
    lemma_lists_push(rows, Codec::Vp9);
}

// ---- the snapshot ---------------------------------------------------------------------------
/// What can happen to a snapshot.
pub enum SnapshotEvent {
    /// Its capabilities were read.
    Read,
    /// A probe that came to this was published.
    Published { caps: CapsView, measured: bool },
}

/// A snapshot once something has happened to it.
pub open spec fn after_event(snapshot: SnapshotView, event: SnapshotEvent) -> SnapshotView {
    match event {
        SnapshotEvent::Read => snapshot.after_read(),
        SnapshotEvent::Published { caps, measured } => snapshot.after_probe(caps, measured),
    }
}

/// A new snapshot once all of this has happened to it, in order.
pub open spec fn after_events(events: Seq<SnapshotEvent>) -> SnapshotView
    decreases events.len(),
{
    if events.len() == 0 {
        SnapshotView::fresh()
    } else {
        after_event(after_events(events.drop_last()), events.last())
    }
}

/// The event of publishing what a read of the table comes to.
pub open spec fn published_read(read: TableRead) -> SnapshotEvent {
    SnapshotEvent::Published {
        caps: match device_caps(read) {
            Some(caps) => caps,
            None => CapsView::assumed(),
        },
        measured: device_caps(read) is Some,
    }
}

/// Whether a probe that measured nothing came to the assumed capabilities.
pub open spec fn falls_back_whole(event: SnapshotEvent) -> bool {
    event matches SnapshotEvent::Published { caps, measured } ==> measured || caps
        == CapsView::assumed()
}

/// A probe is measured exactly where the table was read, and then comes to what the table says.
/// One that measured nothing comes to the assumed capabilities whole.
pub proof fn law_probe_is_measured_by_its_table(read: TableRead)
    ensures
        falls_back_whole(published_read(read)),
        published_read(read) matches SnapshotEvent::Published { caps, measured } ==> (measured
            <==> device_caps(read) == Some(caps)),
{
}

/// What is settled once stays, whatever happens after it.
pub proof fn law_first_settlement_stays(snapshot: SnapshotView, event: SnapshotEvent)
    ensures
        snapshot.caps is Some ==> after_event(snapshot, event).caps == snapshot.caps,
        snapshot.measured is Some ==> after_event(snapshot, event).measured == snapshot.measured,
        after_event(snapshot, event).caps is Some,
{
}

/// A snapshot that says it was measured holds the capabilities of the probe that made it say so:
/// that probe was measured, and settled the capabilities with the flag.
pub proof fn law_measured_caps_are_the_probes(events: Seq<SnapshotEvent>)
    requires
        after_events(events).measured == Some(true),
    ensures
        after_events(events).caps is Some,
        exists|i: int|
            0 <= i < events.len() && #[trigger] events[i] == (SnapshotEvent::Published {
                caps: after_events(events).current(),
                measured: true,
            }) && after_events(events.take(i)) == SnapshotView::fresh(),
    decreases events.len(),
{
    let before = events.drop_last();
    let settled = after_events(before);
    law_first_settlement_stays(settled, events.last());
    if settled.measured is Some {
        law_measured_caps_are_the_probes(before);
        let i = choose|i: int|
            0 <= i < before.len() && #[trigger] before[i] == (SnapshotEvent::Published {
                caps: settled.current(),
                measured: true,
            }) && after_events(before.take(i)) == SnapshotView::fresh();
        assert(events[i] == before[i]);
        assert(events.take(i) =~= before.take(i));
    } else {
        assert(events.take(events.len() - 1) =~= before);
        assert(events[events.len() - 1] == events.last());
    }
}

/// A snapshot that does not say it was measured gives the assumed capabilities.
pub proof fn law_unmeasured_caps_are_assumed(events: Seq<SnapshotEvent>)
    requires
        forall|i: int| 0 <= i < events.len() ==> falls_back_whole(#[trigger] events[i]),
        after_events(events).measured != Some(true),
    ensures
        after_events(events).current() == CapsView::assumed(),
    decreases events.len(),
{
    if events.len() > 0 {
        let before = events.drop_last();
        let settled = after_events(before);
        law_first_settlement_stays(settled, events.last());
        assert(forall|i: int| 0 <= i < before.len() ==> before[i] == events[i]);
        assert(falls_back_whole(events[events.len() - 1]));
        law_unmeasured_caps_are_assumed(before);
    }
}

} // verus!
