//! Sound: frames, and what is decided about them.
use vstd::prelude::*;

pub mod decoder;
pub mod effects;
pub mod encoder;
pub mod mix;
pub mod mixer;
pub mod mixer_laws;
pub mod queue;
pub mod relay;
pub mod routing;
pub mod routing_laws;

verus! {

/// Samples per second.
pub const SAMPLE_RATE: usize = 48000;

/// Milliseconds per frame.
pub const FRAME_MS: usize = 20;

/// Samples per frame.
pub const FRAME_SAMPLES: usize = SAMPLE_RATE * FRAME_MS / 1000;

/// One frame of mono sound.
pub type Frame = [i16; FRAME_SAMPLES];

} // verus!
