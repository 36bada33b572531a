//! Decoded track buffer shared between the UI and the audio thread.
//!
//! The UI keeps a clone of every `Arc<TrackBuffer>` sent to the engine: a
//! drop on the callback side only decrements the counter, never frees.

use std::sync::Arc;

use vstd::prelude::*;

use super::CHANNELS;

verus! {

/// Immutable interleaved stereo track (samples of type `S`).
pub struct TrackBuffer<S> {
    samples: Vec<S>,
}

impl<S> TrackBuffer<S> {
    /// Interleaved samples held by the track.
    pub closed spec fn spec_samples(&self) -> Seq<S> {
        self.samples@
    }

    /// Complete stereo frames of the track.
    pub open spec fn spec_frames(&self) -> int {
        (self.spec_samples().len() / 2) as int
    }

    /// Builds an immutable track. A length that is not a multiple of the
    /// channel count is truncated to the previous complete frame.
    pub fn new(samples: Vec<S>) -> (r: Arc<Self>)
        ensures
            r.spec_samples() == samples@.subrange(0, samples@.len() - samples@.len() % 2),
            r.spec_samples().len() % 2 == 0,
    {
        let mut samples = samples;
        let complete = samples.len() - samples.len() % CHANNELS;
        samples.truncate(complete);
        Arc::new(TrackBuffer { samples })
    }

    /// Number of stereo frames.
    pub fn frames(&self) -> (r: usize)
        ensures
            r == self.spec_frames(),
    {
        self.samples.len() / CHANNELS
    }

    /// Interleaved samples.
    pub fn samples(&self) -> (r: &[S])
        ensures
            r@ == self.spec_samples(),
    {
        self.samples.as_slice()
    }
}

impl<S: Copy> TrackBuffer<S> {
    /// Stereo frame `idx` (left, right).
    pub fn frame(&self, idx: usize) -> (r: (S, S))
        requires
            idx < self.spec_frames(),
        ensures
            r == (self.spec_samples()[2 * idx], self.spec_samples()[2 * idx + 1]),
    {
        let len = self.samples.len();
        assert(idx * 2 + 1 < len);
        let i = idx * CHANNELS;
        (self.samples[i], self.samples[i + 1])
    }
}

} // verus!
