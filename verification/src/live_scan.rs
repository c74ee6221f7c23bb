//! The live OCR scanner: its configuration, the events it reports, and the
//! decisions of its capture loop (what to capture, how to prepare the image,
//! how long to wait).
use vstd::prelude::*;

use crate::models::CaptureRegion;

verus! {

/// Where and how often the live scanner reads the screen.
#[derive(Debug, Clone, Copy, PartialEq, Eq, Structural)]
pub struct LiveScanConfig {
    pub monitor_x: i32,
    pub monitor_y: i32,
    pub region: CaptureRegion,
    pub interval_ms: u64,
    pub emit_preview: bool,
}

/// What the live scanner reports.
#[derive(Debug, Clone)]
pub enum LiveScanEvent {
    /// The capture backend in use.
    Backend(String),
    /// One recognised frame: its text, the signature values read from it,
    /// how long it took, and an optional RGBA preview.
    Ocr {
        raw_text: String,
        numeric_candidates: Vec<u32>,
        elapsed_ms: u128,
        preview_width: u32,
        preview_height: u32,
        preview_rgba: Vec<u8>,
    },
    Error(String),
}

/// The rectangle captured on the monitor: negative offsets clamp to 0 and
/// the size is at least 20 by 20 pixels.
#[derive(Debug, Clone, Copy, PartialEq, Eq, Structural)]
pub struct CaptureRect {
    pub x: u32,
    pub y: u32,
    pub width: u32,
    pub height: u32,
}

pub fn capture_rect(region: CaptureRegion) -> (r: CaptureRect)
    ensures
        r.x == (if region.x < 0 { 0 } else { region.x as int }),
        r.y == (if region.y < 0 { 0 } else { region.y as int }),
        r.width == (if region.width < 20 { 20 } else { region.width }),
        r.height == (if region.height < 20 { 20 } else { region.height }),
{
    CaptureRect {
        x: if region.x < 0 { 0 } else { region.x as u32 },
        y: if region.y < 0 { 0 } else { region.y as u32 },
        width: if region.width < 20 { 20 } else { region.width },
        height: if region.height < 20 { 20 } else { region.height },
    }
}

/// How the preview of a frame is made.
#[derive(Debug, Clone, Copy, PartialEq, Eq, Structural)]
pub enum PreviewPlan {
    Skip,
    /// The frame itself, when it fits in 240 by 240 pixels.
    FullFrame,
    /// A thumbnail within 240 by 240 pixels.
    Thumbnail,
}

/// How a captured frame is prepared for recognition.
#[derive(Debug, Clone, Copy, PartialEq, Eq, Structural)]
pub struct OcrPlan {
    pub preview: PreviewPlan,
    /// Small regions (at most 640 by 120 pixels) are scaled up twofold.
    pub upscale: bool,
}

pub fn ocr_plan(width: u32, height: u32, emit_preview: bool) -> (r: OcrPlan)
    ensures
        r.preview == (if !emit_preview {
            PreviewPlan::Skip
        } else if width <= 240 && height <= 240 {
            PreviewPlan::FullFrame
        } else {
            PreviewPlan::Thumbnail
        }),
        r.upscale == (height <= 120 && width <= 640),
{
    let preview = if !emit_preview {
        PreviewPlan::Skip
    } else if width <= 240 && height <= 240 {
        PreviewPlan::FullFrame
    } else {
        PreviewPlan::Thumbnail
    };
    OcrPlan { preview, upscale: height <= 120 && width <= 640 }
}

/// The name of the capture backend reported when the scanner starts.
pub fn backend_label(desktop_duplication: bool) -> (r: &'static str)
    ensures
        r@ == (if desktop_duplication {
            "DXGI ROI Desktop Duplication"@
        } else {
            "GDI fallback"@
        }),
{
    if desktop_duplication {
        "DXGI ROI Desktop Duplication"
    } else {
        "GDI fallback"
    }
}

pub open spec fn nanos_per_milli() -> nat {
    1_000_000
}

/// While paused (the pause ends later than now), the scanner waits in steps
/// of at most 100 ms; times are nanoseconds on one clock.
pub fn pause_wait_ns(now_ns: u128, pause_until_ns: Option<u128>) -> (r: Option<u128>)
    ensures
        match pause_until_ns {
            Some(until) => if now_ns < until {
                r == Some(
                    (if until - now_ns < 100 * nanos_per_milli() {
                        (until - now_ns) as u128
                    } else {
                        (100 * nanos_per_milli()) as u128
                    }),
                )
            } else {
                r is None
            },
            None => r is None,
        },
{
    match pause_until_ns {
        Some(until) => {
            if now_ns < until {
                let left = until - now_ns;
                let step: u128 = 100_000_000;
                Some(if left < step { left } else { step })
            } else {
                None
            }
        },
        None => None,
    }
}

/// After a frame that took `elapsed_ns`, the scanner sleeps for the rest of
/// its interval; the interval is at least 20 ms.
pub fn interval_wait_ns(elapsed_ns: u128, interval_ms: u64) -> (r: u128)
    ensures
        ({
            let interval = (if interval_ms < 20 { 20 } else { interval_ms as int }) * nanos_per_milli();
            r == (if elapsed_ns < interval { interval - elapsed_ns } else { 0 })
        }),
{
    let ms: u64 = if interval_ms < 20 { 20 } else { interval_ms };
    let interval: u128 = (ms as u128) * 1_000_000;
    if elapsed_ns < interval {
        interval - elapsed_ns
    } else {
        0
    }
}

} // verus!
