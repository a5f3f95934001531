//! The stages that transform a stream of frames: the windowed transform and
//! its inverse, the tempo filter and the buffer of the sample-rate converter.

pub mod resample;
pub mod stft;
pub mod tempo;
