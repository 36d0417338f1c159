//! Decisions of the host loop that runs a game: which screen configurations
//! it accepts, and when it reports the frame rate.
use vstd::prelude::*;
use crate::error::{ErrorKind, PGError, Result};

verus! {

/// Whether a screen of `screen_width` by `screen_height` pixels, each drawn
/// as `pixel_width` by `pixel_height` window pixels, can be run: the screen
/// is not empty, and a pixel is at least 1 and at most the screen size.
pub open spec fn valid_screen(screen_width: usize, screen_height: usize, pixel_width: usize, pixel_height: usize) -> bool {
    &&& screen_width > 0
    &&& screen_height > 0
    &&& pixel_width > 0
    &&& pixel_height > 0
    &&& pixel_width <= screen_width
    &&& pixel_height <= screen_height
}

/// Checks a screen configuration before the host loop starts. An empty
/// screen is reported with the screen size, a bad pixel size with the pixel
/// size.
pub fn check_screen(screen_width: usize, screen_height: usize, pixel_width: usize, pixel_height: usize) -> (r: Result<()>)
    ensures
        r is Ok <==> valid_screen(screen_width, screen_height, pixel_width, pixel_height),
        r is Err && (screen_width == 0 || screen_height == 0) ==> r->Err_0.spec_kind() == (ErrorKind::InvalidSize {
            width: screen_width,
            height: screen_height,
        }),
        r is Err && screen_width > 0 && screen_height > 0 ==> r->Err_0.spec_kind() == (ErrorKind::InvalidSize {
            width: pixel_width,
            height: pixel_height,
        }),
{
    if screen_width == 0 || screen_height == 0 {
        return Err(PGError::invalid_size("Invalid screen size", screen_width, screen_height));
    }
    if pixel_width == 0 || pixel_height == 0 || pixel_width > screen_width || pixel_height > screen_height {
        return Err(PGError::invalid_size("Invalid pixel size", pixel_width, pixel_height));
    }
    Ok(())
}

/// Microseconds between two frame-rate reports.
pub const REPORT_INTERVAL_US: u64 = 1_000_000;

/// Counts frames and the time they took, to report the frame rate once a
/// second.
#[derive(Clone, Copy, Debug, PartialEq, Eq, Structural)]
pub struct FrameCounter {
    frames: u32,
    elapsed_us: u64,
}

impl FrameCounter {
    pub closed spec fn spec_frames(&self) -> u32 {
        self.frames
    }

    pub closed spec fn spec_elapsed_us(&self) -> u64 {
        self.elapsed_us
    }

    /// No frames counted yet.
    pub fn new() -> (c: Self)
        ensures
            c.spec_frames() == 0,
            c.spec_elapsed_us() == 0,
    {
        FrameCounter { frames: 0, elapsed_us: 0 }
    }

    /// Counts a frame that took `elapsed_us` microseconds (the sums saturate).
    /// Once a second or more has gone by, returns the number of frames
    /// counted, this one included, and starts over.
    pub fn tick(&mut self, elapsed_us: u64) -> (r: Option<u32>)
        ensures
            ({
                let frames = if old(self).spec_frames() == u32::MAX {
                    u32::MAX
                } else {
                    (old(self).spec_frames() + 1) as u32
                };
                let total = if old(self).spec_elapsed_us() + elapsed_us > u64::MAX {
                    u64::MAX
                } else {
                    (old(self).spec_elapsed_us() + elapsed_us) as u64
                };
                if total >= REPORT_INTERVAL_US {
                    r == Some(frames) && final(self).spec_frames() == 0 && final(self).spec_elapsed_us() == 0
                } else {
                    r is None && final(self).spec_frames() == frames && final(self).spec_elapsed_us() == total
                }
            }),
    {
        let frames = if self.frames == u32::MAX {
            u32::MAX
        } else {
            self.frames + 1
        };
        let total = if elapsed_us > u64::MAX - self.elapsed_us {
            u64::MAX
        } else {
            self.elapsed_us + elapsed_us
        };
        if total >= REPORT_INTERVAL_US {
            self.frames = 0;
            self.elapsed_us = 0;
            Some(frames)
        } else {
            self.frames = frames;
            self.elapsed_us = total;
            None
        }
    }
}

} // verus!
