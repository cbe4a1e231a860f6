//! What a device showed at each rung that it was pinned to.
//!
//! Seven of the ladder's rungs were measured. Every other rung has no operating point: nothing
//! interpolates one, so that nothing can be simulated on an invented one.
use vstd::prelude::*;

use crate::abr::plant::OperatingPoint;

verus! {

/// The rungs that were measured, by the rate that each asks for.
pub const CALIBRATED: [u32; 7] = [320, 720, 2_000, 4_000, 10_000, 16_000, 20_000];

/// The measured table.
pub struct Calibration;

/// The elementary video rate behind a transport stream: what is left without the audio, at four
/// hundredths of container overhead.
pub open spec fn video_es_of(ts_kbps: u32, audio_es_kbps: u32) -> u32 {
    ((ts_kbps - audio_es_kbps) * 100 / 104) as u32
}

/// One row of the table.
pub open spec fn point_of(
    ts: u32,
    audio: u32,
    overhead: i64,
    declared: u32,
    width: u16,
    height: u16,
) -> OperatingPoint {
    OperatingPoint {
        ts_kbps: ts,
        video_es_kbps: video_es_of(ts, audio),
        audio_es_kbps: audio,
        overhead_ms: overhead,
        declared_kbps: declared,
        decoded_width: width,
        decoded_height: height,
    }
}

impl Calibration {
    /// What was measured at the rung that asks for `kbps`.
    pub open spec fn measured(kbps: u32) -> Option<OperatingPoint> {
        if kbps == 320 {
            Some(point_of(376, 98, 21, 320, 426, 240))
        } else if kbps == 720 {
            Some(point_of(806, 131, 24, 720, 854, 480))
        } else if kbps == 2_000 {
            Some(point_of(2_221, 159, 51, 2_000, 1_280, 720))
        } else if kbps == 4_000 {
            Some(point_of(4_386, 159, 84, 4_000, 1_280, 720))
        } else if kbps == 10_000 {
            Some(point_of(10_881, 192, 171, 10_000, 1_920, 1_080))
        } else if kbps == 16_000 {
            Some(point_of(16_798, 192, 264, 16_000, 1_920, 1_080))
        } else if kbps == 20_000 {
            Some(point_of(20_706, 192, 323, 20_000, 1_920, 1_080))
        } else {
            None
        }
    }

    /// The settled reserve that the device showed at the rung that asks for `kbps`.
    pub open spec fn census(kbps: u32) -> Option<i64> {
        if kbps == 320 {
            Some(88_293)
        } else if kbps == 720 {
            Some(67_543)
        } else if kbps == 2_000 {
            Some(37_210)
        } else if kbps == 4_000 {
            Some(18_418)
        } else if kbps == 10_000 {
            Some(8_168)
        } else if kbps == 16_000 {
            Some(5_793)
        } else if kbps == 20_000 {
            Some(4_960)
        } else {
            None
        }
    }

    /// The settled reserve that the device showed at each rung, in milliseconds.
    ///
    /// It was read off the device, while a plant's ceiling comes from queue sizes and elementary
    /// rates: the two share no term.
    pub fn census_buf_ms(rung_request_kbps: u32) -> (r: Option<i64>)
        ensures
            r == Calibration::census(rung_request_kbps),
    {
        Some(
            match rung_request_kbps {
                320 => 88_293,
                720 => 67_543,
                2_000 => 37_210,
                4_000 => 18_418,
                10_000 => 8_168,
                16_000 => 5_793,
                20_000 => 4_960,
                _ => return None,
            },
        )
    }

    /// What was measured at each rung.
    pub fn point(rung_request_kbps: u32) -> (r: Option<OperatingPoint>)
        ensures
            r == Calibration::measured(rung_request_kbps),
    {
        let (ts, audio, overhead, declared, width, height): (u32, u32, i64, u32, u16, u16) =
            match rung_request_kbps {
            320 => (376, 98, 21, 320, 426, 240),
            720 => (806, 131, 24, 720, 854, 480),
            2_000 => (2_221, 159, 51, 2_000, 1_280, 720),
            4_000 => (4_386, 159, 84, 4_000, 1_280, 720),
            10_000 => (10_881, 192, 171, 10_000, 1_920, 1_080),
            16_000 => (16_798, 192, 264, 16_000, 1_920, 1_080),
            20_000 => (20_706, 192, 323, 20_000, 1_920, 1_080),
            _ => return None,
        };
        Some(
            OperatingPoint {
                ts_kbps: ts,
                video_es_kbps: ((ts - audio) as u64 * 100 / 104) as u32,
                audio_es_kbps: audio,
                overhead_ms: overhead,
                declared_kbps: declared,
                decoded_width: width,
                decoded_height: height,
            },
        )
    }
}

} // verus!
