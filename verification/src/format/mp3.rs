//! MPEG audio streams: how they are recognised, and the steps of their
//! decoder between the frames of the stream and the samples it hands out.

use vstd::prelude::*;
use crate::audio::SeekError;
use crate::format::mp3::index::{covers, is_sync, FrameIndex};

pub mod index;

verus! {

/// The largest number of samples per channel in one frame.
pub const MAX_FRAME_SIZE: usize = 1152;

/// The largest number of bytes that are handed to the decoder at once.
pub const MAX_FRAME_BYTES: usize = 1348;

#[derive(Copy, Clone, Debug, PartialEq, Eq, Structural)]
pub enum Error {
    IO(crate::stream::IoError),
    Index(index::Error),
    /// The decoder failed; the number is its code.
    Lame(i32),
    /// The decoder could not be made.
    ConstructionFailed,
    /// The stream has no header that the decoder understands.
    NoHeader,
}

impl Error {
    /// A short name for the kind of failure.
    pub fn description(&self) -> (s: &'static str)
        ensures
            s@ == "MP3 error"@,
    {
        "MP3 error"
    }
}

/// Whether bytes look like an MPEG audio file: they open with `ID3`, or hold
/// a frame sync anywhere.
pub open spec fn spec_magic(header: Seq<u8>) -> bool {
    ||| header.len() >= 3 && header[0] == 0x49 && header[1] == 0x44 && header[2] == 0x33
    ||| exists|i: int| is_sync(header, i)
}

/// Tells whether bytes look like an MPEG audio file.
pub fn magic(header: &[u8]) -> (b: bool)
    ensures
        b == spec_magic(header@),
{
    if header.len() >= 3 && header[0] == 0x49 && header[1] == 0x44 && header[2] == 0x33 {
        return true;
    }
    if header.len() < 2 {
        return false;
    }
    let mut i: usize = 0;
    while i < header.len() - 1
        invariant
            header@.len() >= 2,
            i <= header@.len() - 1,
            forall|j: int| 0 <= j < i ==> !is_sync(header@, j),
        decreases header@.len() - i,
    {
        if header[i] == 0xff && header[i + 1] & 0xe0 == 0xe0 {
            assert(is_sync(header@, i as int));
            return true;
        }
        i += 1;
    }
    false
}

/// Where the decoder stands between the frames of the stream and the samples
/// of the frame that it decoded last.
#[derive(Copy, Clone, Debug, PartialEq, Eq, Structural)]
pub struct Progress {
    /// The index of the frame that is handed to the decoder next.
    pub next_frame: usize,
    /// The sample of the decoded frame that is handed out next.
    pub next_sample: usize,
    /// The number of samples that the decoded frame holds.
    pub samples_available: usize,
    /// The number of samples at the start of the frame that is decoded next
    /// that lie before the position; they are passed over.
    pub skip: usize,
    /// The index, in the whole stream, of the sample that is handed out next.
    pub position: u64,
}

/// What the decoder does next.
#[derive(Copy, Clone, Debug, PartialEq, Eq, Structural)]
pub enum Step {
    /// Hand out the sample with this index of the decoded frame.
    Emit(usize),
    /// Ask the decoder for samples.
    Decode,
    /// Read this many bytes of the stream and hand them to the decoder.
    Read(u32),
    /// The sequence has ended.
    End,
}

impl Progress {
    /// The progress after the decoder has been set up and has decoded
    /// `decoded` samples on the way. The position is the start of the stream.
    pub fn start(decoded: usize) -> (p: Progress)
        ensures
            p == (Progress {
                next_frame: 0,
                next_sample: 0,
                samples_available: decoded,
                skip: 0,
                position: 0,
            }),
    {
        Progress { next_frame: 0, next_sample: 0, samples_available: decoded, skip: 0, position: 0 }
    }

    /// Hands out the next sample of the decoded frame, if one is left, and
    /// else asks for more. A sample that is handed out moves the position on
    /// by one.
    pub fn next(&mut self) -> (step: Step)
        requires
            old(self).position < u64::MAX,
        ensures
            old(self).next_sample < old(self).samples_available ==> step == Step::Emit(
                old(self).next_sample,
            ) && *final(self) == (Progress {
                next_sample: (old(self).next_sample + 1) as usize,
                position: (old(self).position + 1) as u64,
                ..*old(self)
            }),
            old(self).next_sample >= old(self).samples_available ==> step == Step::Decode
                && *final(self) == *old(self),
    {
        if self.next_sample < self.samples_available {
            let at = self.next_sample;
            self.next_sample = self.next_sample + 1;
            self.position = self.position + 1;
            Step::Emit(at)
        } else {
            Step::Decode
        }
    }

    /// Takes what the decoder answered: a count of samples that it decoded,
    /// zero if it wants more bytes, or a negative code if it failed. Of a
    /// decoded frame the samples before the position are passed over, and the
    /// sample at the position is handed out; a frame that ends before the
    /// position is passed over whole. More bytes are read only while the index
    /// has a frame left.
    pub fn decoded(&mut self, index: &FrameIndex, answer: i32) -> (step: Step)
        requires
            old(self).next_frame < usize::MAX,
            old(self).position < u64::MAX,
        ensures
            answer > 0 && old(self).skip < answer ==> step == Step::Emit(old(self).skip)
                && *final(self) == (Progress {
                next_frame: (old(self).next_frame + 1) as usize,
                next_sample: (old(self).skip + 1) as usize,
                samples_available: answer as usize,
                skip: 0,
                position: (old(self).position + 1) as u64,
            }),
            answer > 0 && old(self).skip >= answer ==> step == Step::Decode && *final(self) == (
            Progress {
                next_frame: (old(self).next_frame + 1) as usize,
                next_sample: answer as usize,
                samples_available: answer as usize,
                skip: (old(self).skip - answer) as usize,
                position: old(self).position,
            }),
            answer < 0 ==> step == Step::End && *final(self) == *old(self),
            answer == 0 ==> *final(self) == *old(self) && step == if old(self).next_frame
                < index.frames@.len() {
                Step::Read(index.frames@[old(self).next_frame as int].length)
            } else {
                Step::End
            },
    {
        if answer == 0 {
            if self.next_frame >= index.frames.len() {
                Step::End
            } else {
                Step::Read(index.frames[self.next_frame].length)
            }
        } else if answer < 0 {
            Step::End
        } else {
            let count: usize = answer as usize;
            self.next_frame = self.next_frame + 1;
            self.samples_available = count;
            if self.skip < count {
                let at = self.skip;
                self.next_sample = at + 1;
                self.skip = 0;
                self.position = self.position + 1;
                Step::Emit(at)
            } else {
                self.next_sample = count;
                self.skip = self.skip - count;
                Step::Decode
            }
        }
    }

    /// Takes the number of bytes that a read brought: none ends the sequence,
    /// any other number goes to the decoder.
    pub fn read(&self, num_read: usize) -> (step: Step)
        ensures
            step == if num_read == 0 {
                Step::End
            } else {
                Step::Decode
            },
    {
        if num_read == 0 {
            Step::End
        } else {
            Step::Decode
        }
    }

    /// Moves to the sample at `position`. On success the position is the one
    /// asked for, the stream has to move to the offset that is returned, that
    /// of the frame that holds the sample, and the decoder starts over with
    /// that frame; the samples of the frame that lie before the position will
    /// be passed over. A position at or behind the end of the stream is out of
    /// range, and so is one that no frame holds; nothing changes then. In an
    /// index without gaps every position before the end succeeds.
    pub fn seek(&mut self, index: &FrameIndex, position: u64) -> (r: Result<u64, SeekError>)
        requires
            index.wf(),
        ensures
            match r {
                Ok(offset) => exists|i: int|
                    {
                        &&& 0 <= i < index.frames@.len()
                        &&& covers(index.frames@[i], position)
                        &&& offset == index.frames@[i].offset
                        &&& *final(self) == (Progress {
                            next_frame: i as usize,
                            next_sample: 0,
                            samples_available: 0,
                            skip: (position - index.frames@[i].sample_offset) as usize,
                            position,
                        })
                    },
                Err(e) => {
                    &&& e == (SeekError::OutofRange {
                        pos: position,
                        size: index.spec_num_samples() as u64,
                    })
                    &&& *final(self) == *old(self)
                    &&& index.ordered() ==> forall|i: int|
                        0 <= i < index.frames@.len() ==> !covers(
                            #[trigger] index.frames@[i],
                            position,
                        )
                },
            },
            position >= index.spec_num_samples() ==> r is Err,
            index.contiguous() ==> (r is Ok <==> position < index.spec_num_samples()),
    {
        if position >= index.num_samples() {
            proof {
                assert forall|i: int| 0 <= i < index.frames@.len() && index.ordered() implies !covers(
                    #[trigger] index.frames@[i],
                    position,
                ) by {
                    if covers(index.frames@[i], position) {
                        index.lemma_ordered_bound(position, i);
                    }
                }
            }
            return Err(SeekError::OutofRange { pos: position, size: index.num_samples() });
        }
        let i = match index.frame_for_sample(position) {
            Some(i) => i,
            None => {
                return Err(SeekError::OutofRange { pos: position, size: index.num_samples() });
            },
        };
        let frame = index.frames[i];
        self.next_frame = i;
        self.next_sample = 0;
        self.samples_available = 0;
        self.skip = (position - frame.sample_offset) as usize;
        self.position = position;
        Ok(frame.offset)
    }

    /// The index of the sample that is handed out next.
    pub fn current_position(&self) -> (p: u64)
        ensures
            p == self.position,
    {
        self.position
    }
}

} // verus!
