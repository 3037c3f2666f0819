//! Frame geometry: the configuration contract shared by the capture and
//! playback paths.
//!
//! Channel count, sample rate and frame duration are fixed at construction
//! and determine the number of interleaved samples per frame. The defaults
//! are 48 kHz, 2 channels, 20 ms frames: 1920 samples per frame.

use vstd::prelude::*;

verus! {

/// Largest accepted sample rate, in Hz.
pub const MAX_SAMPLE_RATE: u32 = 384000;

/// Largest accepted channel count.
pub const MAX_CHANNELS: u16 = 16;

/// Largest accepted frame duration, in milliseconds.
pub const MAX_FRAME_MS: u32 = 1000;

/// The fixed geometry of one audio frame.
#[derive(Debug, Clone, Copy, PartialEq, Eq, Structural)]
pub struct FrameGeometry {
    pub sample_rate: u32,
    pub channels: u16,
    pub frame_ms: u32,
}

impl FrameGeometry {
    /// The geometry's parameters are positive and small enough that every
    /// sample count derived from them fits comfortably in 32 bits.
    pub open spec fn valid(&self) -> bool {
        &&& 0 < self.sample_rate <= MAX_SAMPLE_RATE
        &&& 0 < self.channels <= MAX_CHANNELS
        &&& 0 < self.frame_ms <= MAX_FRAME_MS
    }

    /// Interleaved samples in one frame: samples per channel for one frame
    /// duration, times the channel count.
    pub open spec fn spec_samples_per_frame(&self) -> int {
        ((self.sample_rate * self.frame_ms) / 1000) * self.channels
    }

    /// Samples in one second across all channels; the rings of the pipeline
    /// buffer this much.
    pub open spec fn spec_ring_capacity(&self) -> int {
        self.sample_rate * self.channels
    }

    /// A geometry from explicit parameters; `None` when a parameter is zero
    /// or above its maximum.
    pub fn new(sample_rate: u32, channels: u16, frame_ms: u32) -> (r: Option<FrameGeometry>)
        ensures
            r is Some <==> (FrameGeometry { sample_rate, channels, frame_ms }).valid(),
            r matches Some(g) ==> g == (FrameGeometry { sample_rate, channels, frame_ms }),
    {
        if 0 < sample_rate && sample_rate <= MAX_SAMPLE_RATE && 0 < channels && channels
            <= MAX_CHANNELS && 0 < frame_ms && frame_ms <= MAX_FRAME_MS {
            Some(FrameGeometry { sample_rate, channels, frame_ms })
        } else {
            None
        }
    }

    /// The number of interleaved samples that make up one frame.
    pub fn samples_per_frame(&self) -> (n: usize)
        requires
            self.valid(),
        ensures
            n == self.spec_samples_per_frame(),
            0 <= n <= 0x600000,
    {
        proof {
            assert(self.sample_rate * self.frame_ms <= 384000 * 1000) by (nonlinear_arith)
                requires
                    0 < self.sample_rate <= 384000,
                    0 < self.frame_ms <= 1000,
            ;
            assert(((self.sample_rate * self.frame_ms) / 1000) * self.channels <= 384000 * 16)
                by (nonlinear_arith)
                requires
                    0 <= self.sample_rate * self.frame_ms <= 384000 * 1000,
                    0 < self.channels <= 16,
            ;
        }
        let per_channel: u64 = (self.sample_rate as u64) * (self.frame_ms as u64) / 1000;
        let total: u64 = per_channel * (self.channels as u64);
        total as usize
    }

    /// The ring capacity used by both pipeline directions: one second of
    /// interleaved samples.
    pub fn ring_capacity(&self) -> (n: usize)
        requires
            self.valid(),
        ensures
            n == self.spec_ring_capacity(),
            0 < n <= 0x600000,
    {
        proof {
            assert(self.sample_rate * self.channels <= 384000 * 16) by (nonlinear_arith)
                requires
                    0 < self.sample_rate <= 384000,
                    0 < self.channels <= 16,
            ;
            assert(self.sample_rate * self.channels >= 1) by (nonlinear_arith)
                requires
                    0 < self.sample_rate,
                    0 < self.channels,
            ;
        }
        let total: u64 = (self.sample_rate as u64) * (self.channels as u64);
        total as usize
    }
}

impl Default for FrameGeometry {
    /// The default contract: 48 kHz, stereo, 20 ms frames.
    fn default() -> (r: Self)
        ensures
            r == (FrameGeometry { sample_rate: 48000u32, channels: 2u16, frame_ms: 20u32 }),
            r.valid(),
            r.spec_samples_per_frame() == 1920,
    {
        FrameGeometry { sample_rate: 48000, channels: 2, frame_ms: 20 }
    }
}

} // verus!
