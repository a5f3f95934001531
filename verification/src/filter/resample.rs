//! The output side of the sample-rate converter: the converter hands back a
//! varying number of samples per input frame, and frames of a fixed number of
//! channels leave.

use std::collections::VecDeque;
use vstd::prelude::*;

verus! {

/// The channel layouts that the converter knows, with the mask that names
/// each of them to it.
pub trait AsChannelLayout {
    spec fn spec_channel_layout() -> u32;

    fn channel_layout() -> (mask: u32)
        ensures
            mask == Self::spec_channel_layout(),
    ;
}

/// One channel: front centre.
pub struct N1;

/// Two channels: front left and front right.
pub struct N2;

impl AsChannelLayout for N1 {
    open spec fn spec_channel_layout() -> u32 {
        4
    }

    fn channel_layout() -> (mask: u32) {
        4
    }
}

impl AsChannelLayout for N2 {
    open spec fn spec_channel_layout() -> u32 {
        3
    }

    fn channel_layout() -> (mask: u32) {
        3
    }
}

/// The samples that the converter has put out and that have not left yet.
pub struct Resampler<T> {
    pub output: VecDeque<T>,
    /// The number of samples in a frame.
    pub channels: usize,
    pub output_rate: i64,
    pub input_rate: i64,
}

impl<T: Copy> Resampler<T> {
    /// A converter's buffer for frames of `channels` samples, from one sample
    /// rate to another. It starts empty.
    pub fn new(output_rate: u32, input_rate: u32, channels: usize) -> (r: Resampler<T>)
        ensures
            r.output@ == Seq::<T>::empty(),
            r.channels == channels,
            r.output_rate == output_rate,
            r.input_rate == input_rate,
    {
        Resampler {
            output: VecDeque::new(),
            channels,
            output_rate: output_rate as i64,
            input_rate: input_rate as i64,
        }
    }

    /// Whether the samples at hand fall short of a frame, so that the
    /// converter wants another input frame.
    pub fn wants_input(&self) -> (b: bool)
        ensures
            b == (self.output@.len() < self.channels),
    {
        self.output.len() < self.channels
    }

    /// Takes in the samples that the converter made of one input frame.
    pub fn extend(&mut self, samples: &Vec<T>)
        ensures
            final(self).output@ == old(self).output@ + samples@,
            final(self).channels == old(self).channels,
            final(self).output_rate == old(self).output_rate,
            final(self).input_rate == old(self).input_rate,
    {
        let ghost before = self.output@;
        let mut i: usize = 0;
        while i < samples.len()
            invariant
                i <= samples@.len(),
                self.output@ == before + samples@.subrange(0, i as int),
                self.channels == old(self).channels,
                self.output_rate == old(self).output_rate,
                self.input_rate == old(self).input_rate,
            decreases samples@.len() - i,
        {
            self.output.push_back(samples[i]);
            i += 1;
            assert(self.output@ =~= before + samples@.subrange(0, i as int));
        }
        assert(samples@.subrange(0, samples@.len() as int) =~= samples@);
    }

    /// Lets exactly one frame leave, oldest samples first, if a whole frame
    /// is at hand.
    pub fn next(&mut self) -> (r: Option<Vec<T>>)
        ensures
            final(self).channels == old(self).channels,
            final(self).output_rate == old(self).output_rate,
            final(self).input_rate == old(self).input_rate,
            r is Some <==> old(self).output@.len() >= old(self).channels,
            r is None ==> final(self).output@ == old(self).output@,
            r matches Some(frame) ==> frame@ == old(self).output@.subrange(
                0,
                old(self).channels as int,
            ) && final(self).output@ == old(self).output@.skip(old(self).channels as int),
    {
        if self.output.len() < self.channels {
            return None;
        }
        let ghost before = self.output@;
        let mut frame: Vec<T> = Vec::new();
        let mut i: usize = 0;
        while i < self.channels
            invariant
                i <= self.channels <= before.len(),
                self.channels == old(self).channels,
                self.output_rate == old(self).output_rate,
                self.input_rate == old(self).input_rate,
                frame@ == before.subrange(0, i as int),
                self.output@ == before.skip(i as int),
            decreases self.channels - i,
        {
            match self.output.pop_front() {
                Some(sample) => {
                    frame.push(sample);
                },
                None => {},
            }
            i += 1;
            assert(frame@ =~= before.subrange(0, i as int));
            assert(self.output@ =~= before.skip(i as int));
        }
        Some(frame)
    }
}

} // verus!
