//! Frames, the sources that produce them and the ability to seek in them.

use vstd::prelude::*;

pub mod dynam;
pub mod scale;

verus! {

/// A lazy sequence of frames with a fixed sample rate. It is described by what
/// its next calls of `next` are going to return. The three functions of the
/// description are for verified implementations to define; one that is not
/// verified leaves them as they are.
pub trait Source {
    type Item;

    /// What the type keeps true of its values.
    open spec fn wf(&self) -> bool {
        arbitrary()
    }

    /// The frames per second that have to be read for real-time playback.
    open spec fn rate(&self) -> u32 {
        arbitrary()
    }

    /// What the call of `next` after `n` further calls returns.
    open spec fn upcoming(&self, n: nat) -> Option<Self::Item> {
        arbitrary()
    }

    /// The declared sample rate. It never changes.
    fn sample_rate(&self) -> (r: u32)
        requires
            self.wf(),
        ensures
            r == self.rate(),
    ;

    /// Takes the next frame, or reports the end.
    fn next(&mut self) -> (r: Option<Self::Item>)
        requires
            old(self).wf(),
        ensures
            final(self).wf(),
            final(self).rate() == old(self).rate(),
            r == old(self).upcoming(0),
            forall|n: nat| #[trigger] final(self).upcoming(n) == old(self).upcoming(n + 1),
    ;
}

/// Whether a source has exactly `frames` frames left: its next calls yield
/// that many, and then none.
pub open spec fn has_frames<S: Source>(input: S, frames: nat) -> bool {
    forall|k: nat| (#[trigger] input.upcoming(k)) is Some <==> k < frames
}

/// The first `count` frames that a source yields.
pub open spec fn frames_of<S: Source>(input: S, count: nat) -> Seq<S::Item> {
    Seq::new(count, |i: int| input.upcoming(i as nat)->0)
}

/// Why a seek failed.
#[derive(Debug, PartialEq, Eq)]
pub enum SeekError {
    /// The decoder could not move; the text says why.
    Other(String),
    /// The position lies at or behind the end.
    OutofRange { pos: u64, size: u64 },
}

impl SeekError {
    /// A short name for the kind of failure.
    pub fn description(&self) -> (s: &'static str)
        ensures
            s@ == "Seek error"@,
    {
        "Seek error"
    }
}

/// Random access by frame index, for sources of known length. The three
/// functions of the description are for verified implementations to define.
pub trait Seekable {
    /// What the type keeps true of its values.
    open spec fn valid(&self) -> bool {
        arbitrary()
    }

    /// The total number of frames.
    open spec fn size(&self) -> u64 {
        arbitrary()
    }

    /// The index of the frame that is read next.
    open spec fn cursor(&self) -> u64 {
        arbitrary()
    }

    /// Moves to the frame at `position`. A position at or behind the end is
    /// refused and leaves the cursor where it was.
    fn seek(&mut self, position: u64) -> (r: Result<(), SeekError>)
        requires
            old(self).valid(),
        ensures
            final(self).valid(),
            final(self).size() == old(self).size(),
            r is Ok ==> position < old(self).size() && final(self).cursor() == position,
            position >= old(self).size() ==> r == Err::<(), SeekError>(
                SeekError::OutofRange { pos: position, size: old(self).size() },
            ) && final(self).cursor() == old(self).cursor(),
            r matches Err(SeekError::OutofRange { pos, size }) ==> position >= old(self).size()
                && pos == position && size == old(self).size(),
    ;

    /// The total number of frames.
    fn length(&self) -> (n: u64)
        requires
            self.valid(),
        ensures
            n == self.size(),
    ;

    /// The index of the frame that is read next.
    fn current_position(&self) -> (p: u64)
        requires
            self.valid(),
        ensures
            p == self.cursor(),
    ;
}

/// A source of known length with random access.
pub trait Seek: Source + Seekable {

}

/// A span of time in whole seconds and nanoseconds below one second.
#[derive(Copy, Clone, Debug, PartialEq, Eq, Structural)]
pub struct Duration {
    pub secs: u64,
    pub nanos: u32,
}

/// The time that `num_samples` frames take at `sample_rate`: the whole seconds,
/// and the frames of the last, incomplete second as a fraction of a second in
/// whole nanoseconds.
pub open spec fn spec_duration_of(sample_rate: u32, num_samples: u64) -> Duration {
    Duration {
        secs: (num_samples / sample_rate as u64) as u64,
        nanos: ((num_samples % sample_rate as u64) * 1_000_000_000int / sample_rate as int) as u32,
    }
}

/// The duration of a number of frames at a sample rate.
pub fn duration_of(sample_rate: u32, num_samples: u64) -> (d: Duration)
    requires
        sample_rate > 0,
    ensures
        d == spec_duration_of(sample_rate, num_samples),
        d.nanos < 1_000_000_000,
{
    let rate: u64 = sample_rate as u64;
    let secs: u64 = num_samples / rate;
    let rest: u64 = num_samples % rate;
    assert(rest * 1_000_000_000 <= u64::MAX && rest * 1_000_000_000int / (rate as int)
        < 1_000_000_000) by (nonlinear_arith)
        requires
            0 <= rest < rate,
            rate <= 0xffff_ffff,
    ;
    let nanos: u64 = rest * 1_000_000_000 / rate;
    Duration { secs, nanos: nanos as u32 }
}

/// A source over frames that are already in memory.
pub struct FromIter<T> {
    pub signal: Vec<T>,
    pub position: usize,
    pub sample_rate: u32,
}

impl<T: Copy> FromIter<T> {
    /// Promotes a sequence of frames to a source by attaching a sample rate.
    pub fn source(signal: Vec<T>, sample_rate: u32) -> (s: FromIter<T>)
        ensures
            s.wf(),
            s.rate() == sample_rate,
            forall|n: nat|
                #[trigger] s.upcoming(n) == if n < signal@.len() {
                    Some(signal@[n as int])
                } else {
                    None
                },
    {
        FromIter { signal, position: 0, sample_rate }
    }
}

impl<T: Copy> Source for FromIter<T> {
    type Item = T;

    open spec fn wf(&self) -> bool {
        self.position <= self.signal@.len()
    }

    open spec fn rate(&self) -> u32 {
        self.sample_rate
    }

    open spec fn upcoming(&self, n: nat) -> Option<T> {
        if self.position + n < self.signal@.len() {
            Some(self.signal@[self.position + n])
        } else {
            None
        }
    }

    fn sample_rate(&self) -> (r: u32) {
        self.sample_rate
    }

    fn next(&mut self) -> (r: Option<T>) {
        if self.position < self.signal.len() {
            let frame = self.signal[self.position];
            self.position += 1;
            Some(frame)
        } else {
            None
        }
    }
}

/// A consumer of frames at a fixed sample rate. Writing may block while the
/// device's buffer is full. It is described by the frames that it has taken;
/// the two functions of the description are for verified implementations to
/// define.
pub trait Sink<F> {
    /// The frames per second at which the sink plays.
    open spec fn rate(&self) -> u32 {
        arbitrary()
    }

    /// The frames that the sink has taken so far.
    open spec fn written(&self) -> Seq<F> {
        arbitrary()
    }

    /// Hands one frame to the sink. A frame that the sink refuses is not
    /// taken; the text says why.
    fn write_frame(&mut self, frame: F) -> (r: Result<(), String>)
        ensures
            final(self).rate() == old(self).rate(),
            final(self).written() == if r is Ok {
                old(self).written().push(frame)
            } else {
                old(self).written()
            },
    ;

    /// The sample rate of the sink. It never changes.
    fn sample_rate(&self) -> (r: u32)
        ensures
            r == self.rate(),
    ;
}

} // verus!
