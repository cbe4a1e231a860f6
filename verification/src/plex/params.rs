//! What a playback asks the server's transcoder for.
use vstd::prelude::*;

use crate::text::{
    decimal, decimal_nat, last_digits, push_decimal_i64, push_decimal_u64, push_last_digits,
};

verus! {

/// How a transcode is delivered.
#[derive(Clone, Copy, Debug, PartialEq, Eq, Structural)]
pub enum TranscodeDelivery {
    /// One Matroska stream.
    ProgressiveMkv,
    /// One fixed rendition, cut into segments.
    FixedHls { seconds_per_segment: u32 },
}

/// The most that a re-encode may take.
#[derive(Clone, Copy, Debug, PartialEq, Eq, Structural)]
pub struct Ceiling {
    pub max_kbps: i64,
    pub max_w: i64,
    pub max_h: i64,
}

/// A width and a height.
pub open spec fn resolution_text(w: int, h: int) -> Seq<char> {
    decimal(w) + "x"@ + decimal(h)
}

impl Ceiling {
    /// The ceiling of a playback that chose none.
    pub open spec fn native() -> Ceiling {
        Ceiling { max_kbps: 60_000, max_w: 3_840, max_h: 2_160 }
    }

    /// The ceiling of a playback that chose none.
    pub fn native_4k() -> (r: Ceiling)
        ensures
            r == Ceiling::native(),
    {
        Ceiling { max_kbps: 60_000, max_w: 3_840, max_h: 2_160 }
    }

    /// The resolution as a query carries it.
    pub fn resolution(&self) -> (r: String)
        ensures
            r@ == resolution_text(self.max_w as int, self.max_h as int),
    {
        let mut out = String::new();
        push_decimal_i64(&mut out, self.max_w);
        out.append("x");
        push_decimal_i64(&mut out, self.max_h);
        assert(out@ =~= resolution_text(self.max_w as int, self.max_h as int));
        out
    }
}

/// Where in the content a transcode begins.
#[derive(Clone, Copy, Debug, PartialEq, Eq, Structural)]
pub enum TranscodeOffset {
    /// At the start, with nothing said on the wire.
    Fresh,
    /// At this many microseconds.
    Micros(u64),
}

/// Microseconds as seconds with six decimals.
pub open spec fn seconds_text(micros: u64) -> Seq<char> {
    decimal_nat((micros / 1_000_000) as nat) + "."@ + last_digits((micros % 1_000_000) as nat, 6)
}

impl TranscodeOffset {
    /// What the wire carries, if anything.
    pub open spec fn wire(self) -> Option<Seq<char>> {
        match self {
            TranscodeOffset::Fresh => None,
            TranscodeOffset::Micros(micros) => Some(seconds_text(micros)),
        }
    }

    /// The offset of exactly `micros`.
    pub fn from_micros(micros: u64) -> (r: TranscodeOffset)
        ensures
            r == TranscodeOffset::Micros(micros),
    {
        TranscodeOffset::Micros(micros)
    }

    /// What the wire carries, if anything: seconds, to the microsecond.
    pub fn wire_seconds(&self) -> (r: Option<String>)
        ensures
            match self.wire() {
                None => r is None,
                Some(text) => r is Some && (r->0)@ == text,
            },
    {
        match *self {
            TranscodeOffset::Fresh => None,
            TranscodeOffset::Micros(micros) => {
                let mut out = String::new();
                push_decimal_u64(&mut out, micros / 1_000_000);
                out.append(".");
                push_last_digits(&mut out, micros % 1_000_000, 6);
                assert(out@ =~= seconds_text(micros));
                Some(out)
            },
        }
    }
}

/// One transcode session.
#[derive(Clone, Copy, Debug)]
pub struct TranscodeSpec<'a> {
    pub rating_key: &'a str,
    /// The playback's identity.
    pub session: &'a str,
    /// The encoder's identity.
    pub encoder_session: &'a str,
    pub delivery: TranscodeDelivery,
    /// Change the container alone, and copy the codecs.
    pub remux: bool,
    /// The source's pixels are wrong for this set, whatever their size: the video may not be
    /// copied.
    pub no_video_copy: bool,
    /// The audio stream to use, or 0 for the server's choice.
    pub audio_stream_id: i64,
    /// The subtitle stream to burn in, or 0 for none.
    pub subtitle_stream_id: i64,
    pub offset: TranscodeOffset,
    /// The most that a re-encode may take, where the playback chose it.
    pub ceiling: Option<Ceiling>,
}

impl<'a> TranscodeSpec<'a> {
    /// Whether the delivery is segmented.
    pub open spec fn is_hls(self) -> bool {
        self.delivery is FixedHls
    }

    /// A fixed rendition is encoded, never a remux.
    pub open spec fn is_coherent(self) -> bool {
        !(self.is_hls() && self.remux)
    }

    /// Whether the server may copy the video instead of encoding it.
    pub open spec fn copy_allowed(self) -> bool {
        !self.is_hls() && !(self.no_video_copy && !self.remux)
    }

    /// The ceiling that binds a re-encode.
    pub open spec fn bound(self) -> Ceiling {
        match self.ceiling {
            Some(ceiling) => ceiling,
            None => Ceiling::native(),
        }
    }
}

} // verus!
