//! What this television can decode, from the device's own codec table.
//!
//! The platform publishes a table of codecs with the largest frame and frame rate that each
//! decoder takes. Two facts about it shape the reading:
//!
//! * Rows that name the same codec describe one decoder. They are merged by the smallest stated
//!   value on every axis, because claiming too much is the failure to avoid.
//! * A table that cannot be understood falls back WHOLE to [`Caps::assumed`]: numbers of the two
//!   are never mixed.
use vstd::prelude::*;

pub mod laws;
pub mod table_laws;

use crate::plex::transcoder::DP_AUDIO_CODECS;
use crate::text::{
    begins_with, chars_of, contains_text, decimal_nat, has_prefix, join, joined, push_decimal_u64,
    same, split, split_on, texts,
};

verus! {

/// Where the platform keeps its codec table.
pub const CAPS_TABLE: &'static str = "/etc/umediaserver/device_codec_capability_config.json";

// ---- the table ------------------------------------------------------------------------------
/// One video decoder's row. An axis that the row does not state is 0.
#[derive(Clone, Debug)]
pub struct VideoRow {
    pub name: String,
    pub max_width: u32,
    pub max_height: u32,
    /// Frames per second, a fraction rounded up: a stream has to fit under it.
    pub max_frame_rate: u32,
}

/// One audio decoder's row.
#[derive(Clone, Debug)]
pub struct AudioRow {
    pub name: String,
}

/// The codec table.
#[derive(Clone, Debug)]
pub struct Table {
    pub video_codecs: Vec<VideoRow>,
    pub audio_codecs: Vec<AudioRow>,
}

/// [`VideoRow`] with its name as text.
pub struct VideoRowView {
    pub name: Seq<char>,
    pub max_width: u32,
    pub max_height: u32,
    pub max_frame_rate: u32,
}

impl View for VideoRow {
    type V = VideoRowView;

    open spec fn view(&self) -> VideoRowView {
        VideoRowView {
            name: self.name@,
            max_width: self.max_width,
            max_height: self.max_height,
            max_frame_rate: self.max_frame_rate,
        }
    }
}

/// [`Table`] as its rows: the video rows, and the names of the audio rows.
pub struct TableView {
    pub video: Seq<VideoRowView>,
    pub audio: Seq<Seq<char>>,
}

impl View for Table {
    type V = TableView;

    open spec fn view(&self) -> TableView {
        TableView {
            video: Seq::new(self.video_codecs@.len(), |i: int| self.video_codecs@[i]@),
            audio: Seq::new(self.audio_codecs@.len(), |i: int| self.audio_codecs@[i].name@),
        }
    }
}

// ---- codec names ----------------------------------------------------------------------------
/// An ASCII capital as its small letter, any other character as itself.
pub open spec fn ascii_lower(c: char) -> char {
    if 'A' <= c <= 'Z' {
        ((c as u32) + 32) as char
    } else {
        c
    }
}

/// Dots and dashes are a firmware's formatting, not part of a codec's name.
pub open spec fn is_name_char(c: char) -> bool {
    c != '.' && c != '-'
}

/// A name without dots and dashes, in small letters.
pub open spec fn folded(name: Seq<char>) -> Seq<char> {
    name.filter(|c: char| is_name_char(c)).map_values(|c: char| ascii_lower(c))
}

/// A codec's one spelling. The table names the DTS family after its format; the server calls every
/// flavour of it `dca`.
pub open spec fn canonical(name: Seq<char>) -> Seq<char> {
    if has_prefix(folded(name), "dts"@) {
        "dca"@
    } else {
        folded(name)
    }
}

/// One codec name, canonicalized.
pub fn canon(name: &str) -> (r: String)
    ensures
        r@ == canonical(name@),
{
    let chars: Vec<char> = chars_of(name);
    let mut key = String::new();
    let mut i: usize = 0;
    proof {
        reveal(Seq::filter);
        assert(name@.take(0) =~= Seq::empty());
        assert(key@ =~= folded(name@.take(0)));
    }
    while i < chars.len()
        invariant
            i <= chars@.len(),
            chars@ == name@,
            key@ == folded(name@.take(i as int)),
        decreases chars@.len() - i,
    {
        let c: char = chars[i];
        proof {
            reveal(Seq::filter);
            assert(name@.take(i + 1).drop_last() =~= name@.take(i as int));
            assert(name@.take(i + 1).last() == c);
        }
        if c != '.' && c != '-' {
            let small: char = if 'A' <= c && c <= 'Z' {
                (c as u8 + 32) as char
            } else {
                c
            };
            key.push(small);
        }
        assert(key@ =~= folded(name@.take(i + 1)));
        i = i + 1;
    }
    assert(name@.take(i as int) =~= name@);
    if begins_with(key.as_str(), "dts") {
        String::from_str("dca")
    } else {
        key
    }
}

/// The decoders that the playback stack asks about.
#[derive(Clone, Copy, Debug, PartialEq, Eq, Structural)]
pub enum Codec {
    H264,
    Hevc,
    Vp9,
    Other,
}

/// The decoder that a row describes. `H.265` and `HEVC` are one decoder.
pub open spec fn codec_of(name: Seq<char>) -> Codec {
    let key = canonical(name);
    if key == "h265"@ || key == "hevc"@ {
        Codec::Hevc
    } else if key == "h264"@ {
        Codec::H264
    } else if key == "vp9"@ {
        Codec::Vp9
    } else {
        Codec::Other
    }
}

fn codec_named(name: &str) -> (r: Codec)
    ensures
        r == codec_of(name@),
{
    let key = canon(name);
    if same(key.as_str(), "h265") || same(key.as_str(), "hevc") {
        Codec::Hevc
    } else if same(key.as_str(), "h264") {
        Codec::H264
    } else if same(key.as_str(), "vp9") {
        Codec::Vp9
    } else {
        Codec::Other
    }
}

// ---- merging --------------------------------------------------------------------------------
/// The smaller of two stated values. A value of 0 was not stated, and bounds nothing.
pub open spec fn tighter(a: u32, b: u32) -> u32 {
    if a == 0 {
        b
    } else if b == 0 || a < b {
        a
    } else {
        b
    }
}

/// The smaller of two stated values, or 0 where neither was stated.
pub fn min_nz(a: u32, b: u32) -> (r: u32)
    ensures
        r == tighter(a, b),
{
    match (a, b) {
        (0, x) => x,
        (x, 0) => x,
        (a, b) => a.min(b),
    }
}

/// An axis of a video row.
pub enum Axis {
    Width,
    Height,
    FrameRate,
}

/// What a row states on an axis.
pub open spec fn stated(row: VideoRowView, axis: Axis) -> u32 {
    match axis {
        Axis::Width => row.max_width,
        Axis::Height => row.max_height,
        Axis::FrameRate => row.max_frame_rate,
    }
}

/// Whether some row describes this decoder.
pub open spec fn lists(rows: Seq<VideoRowView>, codec: Codec) -> bool {
    exists|i: int| 0 <= i < rows.len() && codec_of(#[trigger] rows[i].name) == codec
}

/// The tightest value that any row of this decoder states on an axis, or 0 where none does.
pub open spec fn merged(rows: Seq<VideoRowView>, codec: Codec, axis: Axis) -> u32
    decreases rows.len(),
{
    if rows.len() == 0 {
        0
    } else {
        let before = merged(rows.drop_last(), codec, axis);
        if codec_of(rows.last().name) == codec {
            tighter(before, stated(rows.last(), axis))
        } else {
            before
        }
    }
}

/// The bound that holds for both decoders at once.
pub open spec fn bound(rows: Seq<VideoRowView>, axis: Axis) -> u32 {
    tighter(merged(rows, Codec::H264, axis), merged(rows, Codec::Hevc, axis))
}

/// All three axes of a decoder.
pub open spec fn merged_row(rows: Seq<VideoRowView>, codec: Codec) -> (u32, u32, u32) {
    (
        merged(rows, codec, Axis::Width),
        merged(rows, codec, Axis::Height),
        merged(rows, codec, Axis::FrameRate),
    )
}

/// Whether the table has an audio row for the codec that the server calls `codec`.
pub open spec fn lists_audio(names: Seq<Seq<char>>, codec: Seq<char>) -> bool {
    exists|i: int| 0 <= i < names.len() && canonical(#[trigger] names[i]) == codec
}

/// The codecs that the pipeline can feed, in their own order.
pub open spec fn feedable() -> Seq<Seq<char>> {
    split_on(DP_AUDIO_CODECS@, ',')
}

/// The codecs that the pipeline can feed and the table lists, in the pipeline's order.
pub open spec fn playable(names: Seq<Seq<char>>) -> Seq<Seq<char>> {
    feedable().filter(|c: Seq<char>| lists_audio(names, c))
}

// ---- capabilities ---------------------------------------------------------------------------
/// What the playback stack goes by.
#[derive(Debug, PartialEq, Eq)]
pub struct Caps {
    /// The set decodes HEVC. It always decodes H.264.
    pub hevc: bool,
    /// The largest frame for every codec at once: per axis, the tighter of both decoders.
    pub hevc_max: (u32, u32),
    /// Width, height and frame rate of each decoder as the table states them, 0 where it does not.
    pub h264_row: (u32, u32, u32),
    pub hevc_row: (u32, u32, u32),
    /// For diagnosis alone: the pipeline cannot feed VP9.
    pub vp9: bool,
    /// The audio codecs that are both fed and decoded, as a comma list.
    pub audio: String,
}

/// [`Caps`] with its audio list as text.
pub struct CapsView {
    pub hevc: bool,
    pub hevc_max: (u32, u32),
    pub h264_row: (u32, u32, u32),
    pub hevc_row: (u32, u32, u32),
    pub vp9: bool,
    pub audio: Seq<char>,
}

impl View for Caps {
    type V = CapsView;

    open spec fn view(&self) -> CapsView {
        CapsView {
            hevc: self.hevc,
            hevc_max: self.hevc_max,
            h264_row: self.h264_row,
            hevc_row: self.hevc_row,
            vp9: self.vp9,
            audio: self.audio@,
        }
    }
}

impl Clone for Caps {
    fn clone(&self) -> (r: Caps)
        ensures
            r@ == self@,
    {
        Caps {
            hevc: self.hevc,
            hevc_max: self.hevc_max,
            h264_row: self.h264_row,
            hevc_row: self.hevc_row,
            vp9: self.vp9,
            audio: self.audio.clone(),
        }
    }
}

impl CapsView {
    /// What is claimed of a set whose table cannot be read.
    pub open spec fn assumed() -> CapsView {
        CapsView {
            hevc: true,
            hevc_max: (3840, 2176),
            h264_row: (0, 0, 0),
            hevc_row: (0, 0, 0),
            vp9: true,
            audio: DP_AUDIO_CODECS@,
        }
    }

    /// Whether an audio codec, in the server's spelling, is both fed and decoded.
    pub open spec fn has_audio(self, codec: Seq<char>) -> bool {
        split_on(self.audio, ',').contains(codec)
    }

    /// The codec that the server is asked to encode to.
    pub open spec fn encode_target(self) -> Seq<char> {
        if self.hevc {
            "hevc"@
        } else {
            "h264"@
        }
    }
}

/// What a table says, or `None` where it is not one that can be understood: it lists no H.264
/// decoder, which every set has, or leaves the width or the height unbounded.
pub open spec fn parsed(t: TableView) -> Option<CapsView> {
    let width = bound(t.video, Axis::Width);
    let height = bound(t.video, Axis::Height);
    if !lists(t.video, Codec::H264) || width == 0 || height == 0 {
        None
    } else {
        Some(
            CapsView {
                hevc: lists(t.video, Codec::Hevc),
                hevc_max: (width, height),
                h264_row: merged_row(t.video, Codec::H264),
                hevc_row: merged_row(t.video, Codec::Hevc),
                vp9: lists(t.video, Codec::Vp9),
                audio: if playable(t.audio).len() == 0 {
                    DP_AUDIO_CODECS@
                } else {
                    joined(playable(t.audio), ',')
                },
            },
        )
    }
}

impl Caps {
    /// What is claimed of a set whose table cannot be read: the one set that was measured before
    /// there was a table to read.
    pub fn assumed() -> (r: Caps)
        ensures
            r@ == CapsView::assumed(),
    {
        Caps {
            hevc: true,
            hevc_max: (3840, 2176),
            h264_row: (0, 0, 0),
            hevc_row: (0, 0, 0),
            vp9: true,
            audio: String::from_str(DP_AUDIO_CODECS),
        }
    }

    /// Whether `codec`, in the server's spelling, is one of the audio codecs.
    pub fn audio_has(&self, codec: &str) -> (r: bool)
        ensures
            r == self@.has_audio(codec@),
    {
        contains_text(&split(self.audio.as_str(), ','), codec)
    }

    /// The codec that the server is asked to encode to: HEVC where the set decodes it.
    pub fn encode_vcodec(&self) -> (r: &'static str)
        ensures
            r@ == self@.encode_target(),
    {
        if self.hevc {
            "hevc"
        } else {
            "h264"
        }
    }
}

/// Whether some row names the codec that the server calls `codec`.
fn audio_listed(rows: &Vec<AudioRow>, codec: &str) -> (r: bool)
    ensures
        r == (exists|i: int|
            0 <= i < rows@.len() && canonical(#[trigger] rows@[i].name@) == codec@),
{
    let mut i: usize = 0;
    while i < rows.len()
        invariant
            i <= rows@.len(),
            forall|j: int| 0 <= j < i ==> canonical(#[trigger] rows@[j].name@) != codec@,
        decreases rows@.len() - i,
    {
        let name = canon(rows[i].name.as_str());
        if same(name.as_str(), codec) {
            assert(canonical(rows@[i as int].name@) == codec@);
            return true;
        }
        i = i + 1;
    }
    false
}

/// The pipeline's codecs that the table lists.
fn playable_audio(table: &Table) -> (r: Vec<String>)
    ensures
        texts(r@) == playable(table@.audio),
{
    let all: Vec<String> = split(DP_AUDIO_CODECS, ',');
    let mut kept: Vec<String> = Vec::new();
    let mut i: usize = 0;
    let ghost keep = |c: Seq<char>| lists_audio(table@.audio, c);
    proof {
        reveal(Seq::filter);
        assert(feedable().take(0) =~= Seq::empty());
        assert(texts(kept@) =~= feedable().take(0).filter(keep));
    }
    while i < all.len()
        invariant
            i <= all@.len(),
            texts(all@) == feedable(),
            keep == (|c: Seq<char>| lists_audio(table@.audio, c)),
            texts(kept@) == feedable().take(i as int).filter(keep),
        decreases all@.len() - i,
    {
        let ghost codec = all@[i as int]@;
        let ghost before = kept@;
        proof {
            reveal(Seq::filter);
            assert(feedable().take(i + 1).drop_last() =~= feedable().take(i as int));
            assert(feedable().take(i + 1).last() == codec);
        }
        let listed = audio_listed(&table.audio_codecs, all[i].as_str());
        proof {
            if listed {
                let j = choose|j: int|
                    0 <= j < table.audio_codecs@.len() && canonical(
                        #[trigger] table.audio_codecs@[j].name@,
                    ) == codec;
                assert(table@.audio[j] == table.audio_codecs@[j].name@);
            } else if lists_audio(table@.audio, codec) {
                let j = choose|j: int|
                    0 <= j < table@.audio.len() && canonical(#[trigger] table@.audio[j]) == codec;
                assert(canonical(table.audio_codecs@[j].name@) == codec);
            }
            assert(keep(codec) == listed);
        }
        if listed {
            kept.push(all[i].clone());
            assert(texts(kept@) =~= texts(before).push(codec));
        }
        i = i + 1;
    }
    assert(feedable().take(i as int) =~= feedable());
    kept
}

/// Everything that the codec table says, or `None` where it is not a table that can be understood.
pub fn parse(table: &Table) -> (r: Option<Caps>)
    ensures
        match parsed(table@) {
            None => r is None,
            Some(caps) => r is Some && (r->0)@ == caps,
        },
{
    let mut h264 = false;
    let mut hevc = false;
    let mut vp9 = false;
    let mut h264_row: (u32, u32, u32) = (0, 0, 0);
    let mut hevc_row: (u32, u32, u32) = (0, 0, 0);
    let mut i: usize = 0;
    let ghost rows = table@.video;
    while i < table.video_codecs.len()
        invariant
            i <= table.video_codecs@.len(),
            rows == table@.video,
            h264 == lists(rows.take(i as int), Codec::H264),
            hevc == lists(rows.take(i as int), Codec::Hevc),
            vp9 == lists(rows.take(i as int), Codec::Vp9),
            h264_row == merged_row(rows.take(i as int), Codec::H264),
            hevc_row == merged_row(rows.take(i as int), Codec::Hevc),
        decreases table.video_codecs@.len() - i,
    {
        let row = &table.video_codecs[i];
        let codec = codec_named(row.name.as_str());
        proof {
            let next = rows.take(i + 1);
            assert(next.drop_last() =~= rows.take(i as int));
            assert(next.last() == row@);
            lemma_lists_push(next, Codec::H264);
            lemma_lists_push(next, Codec::Hevc);
            lemma_lists_push(next, Codec::Vp9);
        }
        match codec {
            Codec::Hevc => {
                hevc = true;
                hevc_row =
                (
                    min_nz(hevc_row.0, row.max_width),
                    min_nz(hevc_row.1, row.max_height),
                    min_nz(hevc_row.2, row.max_frame_rate),
                );
            },
            Codec::H264 => {
                h264 = true;
                h264_row =
                (
                    min_nz(h264_row.0, row.max_width),
                    min_nz(h264_row.1, row.max_height),
                    min_nz(h264_row.2, row.max_frame_rate),
                );
            },
            Codec::Vp9 => {
                vp9 = true;
            },
            Codec::Other => {},
        }
        i = i + 1;
    }
    assert(rows.take(i as int) =~= rows);
    if !h264 {
        return None;
    }
    let hevc_max: (u32, u32) = (min_nz(h264_row.0, hevc_row.0), min_nz(h264_row.1, hevc_row.1));
    if hevc_max.0 == 0 || hevc_max.1 == 0 {
        return None;
    }
    let listed: Vec<String> = playable_audio(table);
    proof {
        assert(texts(listed@).len() == listed@.len());
    }
    let audio = if listed.len() == 0 {
        Caps::assumed().audio
    } else {
        join(&listed, ',')
    };
    Some(Caps { hevc, hevc_max, h264_row, hevc_row, vp9, audio })
}

/// One row more lists what was listed, and its own decoder.
pub proof fn lemma_lists_push(rows: Seq<VideoRowView>, codec: Codec)
    requires
        rows.len() > 0,
    ensures
        lists(rows, codec) == (lists(rows.drop_last(), codec) || codec_of(rows.last().name)
            == codec),
{
    let before = rows.drop_last();
    if lists(before, codec) {
        let i = choose|i: int|
            0 <= i < before.len() && codec_of(#[trigger] before[i].name) == codec;
        assert(codec_of(rows[i].name) == codec);
    }
    if lists(rows, codec) {
        let i = choose|i: int| 0 <= i < rows.len() && codec_of(#[trigger] rows[i].name) == codec;
        if i < rows.len() - 1 {
            assert(codec_of(before[i].name) == codec);
        }
    }
}

// ---- the snapshot ---------------------------------------------------------------------------
/// What came of reading the table's file.
pub enum TableRead {
    /// The file could not be read, and why.
    Unreadable(String),
    /// The file holds no such table.
    Unparseable,
    /// The table.
    Read(Table),
}

/// What a probe of the device came to.
pub struct Probed {
    pub caps: Caps,
    /// Whether the capabilities are this device's, or assumed.
    pub measured: bool,
    /// The line for the event log.
    pub log: String,
}

pub open spec fn bool_text(b: bool) -> Seq<char> {
    if b {
        "true"@
    } else {
        "false"@
    }
}

pub open spec fn size_text(w: u32, h: u32) -> Seq<char> {
    decimal_nat(w as nat) + "x"@ + decimal_nat(h as nat)
}

pub open spec fn row_text(row: (u32, u32, u32)) -> Seq<char> {
    size_text(row.0, row.1) + "@"@ + decimal_nat(row.2 as nat)
}

/// The log line of a device whose table was read.
pub open spec fn measured_text(c: CapsView) -> Seq<char> {
    "devcaps: hevc="@ + bool_text(c.hevc) + " "@ + size_text(c.hevc_max.0, c.hevc_max.1)
        + " vp9="@ + bool_text(c.vp9) + " audio="@ + c.audio + " rows: h264="@ + row_text(
        c.h264_row,
    ) + " hevc="@ + row_text(c.hevc_row) + " (device table)"@
}

/// The log line of a device whose table could not be used.
pub open spec fn assumed_text(why: Seq<char>) -> Seq<char> {
    "devcaps: "@ + CAPS_TABLE@ + why + " — assuming the 49SM9000PLA profile"@
}

/// What a read of the table says of the device, if it says anything.
pub open spec fn device_caps(read: TableRead) -> Option<CapsView> {
    match read {
        TableRead::Read(table) => parsed(table@),
        _ => None,
    }
}

fn push_bool(out: &mut String, b: bool)
    ensures
        final(out)@ == old(out)@ + bool_text(b),
{
    if b {
        out.append("true");
    } else {
        out.append("false");
    }
}

fn push_size(out: &mut String, w: u32, h: u32)
    ensures
        final(out)@ == old(out)@ + size_text(w, h),
{
    push_decimal_u64(out, w as u64);
    out.append("x");
    push_decimal_u64(out, h as u64);
    assert(out@ =~= old(out)@ + size_text(w, h));
}

fn push_row(out: &mut String, row: (u32, u32, u32))
    ensures
        final(out)@ == old(out)@ + row_text(row),
{
    push_size(out, row.0, row.1);
    out.append("@");
    push_decimal_u64(out, row.2 as u64);
    assert(out@ =~= old(out)@ + row_text(row));
}

fn measured_line(c: &Caps) -> (r: String)
    ensures
        r@ == measured_text(c@),
{
    let mut out = String::from_str("devcaps: hevc=");
    push_bool(&mut out, c.hevc);
    out.append(" ");
    push_size(&mut out, c.hevc_max.0, c.hevc_max.1);
    out.append(" vp9=");
    push_bool(&mut out, c.vp9);
    out.append(" audio=");
    out.append(c.audio.as_str());
    out.append(" rows: h264=");
    push_row(&mut out, c.h264_row);
    out.append(" hevc=");
    push_row(&mut out, c.hevc_row);
    out.append(" (device table)");
    out
}

fn assumed_line(why: &str) -> (r: String)
    ensures
        r@ == assumed_text(why@),
{
    let mut out = String::from_str("devcaps: ");
    out.append(CAPS_TABLE);
    out.append(why);
    out.append(" — assuming the 49SM9000PLA profile");
    out
}

/// What a read of the table comes to: the table's own capabilities, or the assumed ones whole.
pub fn probe(read: &TableRead) -> (r: Probed)
    ensures
        r.measured == device_caps(*read) is Some,
        r.caps@ == (match device_caps(*read) {
            Some(caps) => caps,
            None => CapsView::assumed(),
        }),
        r.log@ == (match *read {
            TableRead::Unreadable(why) => assumed_text(" unreadable ("@ + why@ + ")"@),
            TableRead::Unparseable => assumed_text(" unparseable"@),
            TableRead::Read(_) => match device_caps(*read) {
                Some(caps) => measured_text(caps),
                None => assumed_text(" unparseable"@),
            },
        }),
{
    match read {
        TableRead::Unreadable(why) => {
            let mut reason = String::from_str(" unreadable (");
            reason.append(why.as_str());
            reason.append(")");
            Probed {
                caps: Caps::assumed(),
                measured: false,
                log: assumed_line(reason.as_str()),
            }
        },
        TableRead::Unparseable => Probed {
            caps: Caps::assumed(),
            measured: false,
            log: assumed_line(" unparseable"),
        },
        TableRead::Read(table) => match parse(table) {
            Some(caps) => {
                let log = measured_line(&caps);
                Probed { caps, measured: true, log }
            },
            None => Probed {
                caps: Caps::assumed(),
                measured: false,
                log: assumed_line(" unparseable"),
            },
        },
    }
}

/// What a snapshot has settled: the capabilities, and whether they were measured.
pub struct SnapshotView {
    pub caps: Option<CapsView>,
    pub measured: Option<bool>,
}

impl SnapshotView {
    /// Nothing is settled before a read or a probe.
    pub open spec fn fresh() -> SnapshotView {
        SnapshotView { caps: None, measured: None }
    }

    /// The capabilities that a read gives.
    pub open spec fn current(self) -> CapsView {
        match self.caps {
            Some(caps) => caps,
            None => CapsView::assumed(),
        }
    }

    /// A read settles the capabilities, where they are not settled yet, and says nothing of a
    /// measurement.
    pub open spec fn after_read(self) -> SnapshotView {
        SnapshotView { caps: Some(self.current()), measured: self.measured }
    }

    /// A probe settles what is not settled yet. It counts as a measurement only where it settles
    /// the capabilities, too: those that were assumed before it stay assumed.
    pub open spec fn after_probe(self, caps: CapsView, measured: bool) -> SnapshotView {
        SnapshotView {
            caps: Some(
                match self.caps {
                    Some(settled) => settled,
                    None => caps,
                },
            ),
            measured: Some(
                match self.measured {
                    Some(settled) => settled,
                    None => measured && self.caps is None,
                },
            ),
        }
    }
}

/// The one snapshot that every play decision reads. Each half is written at most once: what was
/// read or published first stays.
pub struct Snapshot {
    caps: Option<Caps>,
    measured: Option<bool>,
}

impl View for Snapshot {
    type V = SnapshotView;

    closed spec fn view(&self) -> SnapshotView {
        SnapshotView {
            caps: match self.caps {
                Some(caps) => Some(caps@),
                None => None,
            },
            measured: self.measured,
        }
    }
}

impl Snapshot {
    /// The capabilities that have been settled, if any have.
    pub open spec fn settled_caps(&self) -> Option<CapsView> {
        self@.caps
    }

    /// Whether they were measured, if that has been settled.
    pub open spec fn settled_measured(&self) -> Option<bool> {
        self@.measured
    }

    /// A snapshot before any probe.
    pub fn new() -> (r: Snapshot)
        ensures
            r@ == SnapshotView::fresh(),
    {
        Snapshot { caps: None, measured: None }
    }

    /// What this device decodes. Read before any probe, it settles on the assumed capabilities.
    pub fn caps(&mut self) -> (r: &Caps)
        ensures
            r@ == old(self)@.current(),
            final(self)@ == old(self)@.after_read(),
    {
        if self.caps.is_none() {
            self.caps = Some(Caps::assumed());
        }
        self.caps.as_ref().unwrap()
    }

    /// Whether [`Snapshot::caps`] is this device's own table, or the assumed profile. Not so before
    /// a probe, nor where the capabilities were read, and so assumed, before it.
    pub fn measured(&self) -> (r: bool)
        ensures
            r == (self.settled_measured() == Some(true)),
    {
        match self.measured {
            Some(measured) => measured,
            None => false,
        }
    }

    /// Settles what a probe came to, where it is not settled yet.
    pub fn publish(&mut self, probed: &Probed)
        ensures
            final(self)@ == old(self)@.after_probe(probed.caps@, probed.measured),
            final(self).settled_caps() == Some(
                match old(self).settled_caps() {
                    Some(caps) => caps,
                    None => probed.caps@,
                },
            ),
            final(self).settled_measured() == Some(
                match old(self).settled_measured() {
                    Some(measured) => measured,
                    None => probed.measured && old(self).settled_caps() is None,
                },
            ),
    {
        if self.measured.is_none() {
            self.measured = Some(probed.measured && self.caps.is_none());
        }
        if self.caps.is_none() {
            self.caps = Some(probed.caps.clone());
        }
    }
}

} // verus!
