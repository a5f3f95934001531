//! The bookkeeping of the short-time transform: the sliding window over the
//! input frames, and the overlap of two reconstructed windows in the inverse.
//! The transforms themselves work on numbers that are computed elsewhere.

use std::collections::VecDeque;
use vstd::prelude::*;
use crate::audio::{has_frames, Source};

verus! {

/// The frame that call `i` of `next` on `input` puts into the window: the
/// source's frame, or `silence` at and behind its end.
pub open spec fn window_frame<S: Source>(input: S, i: int, silence: S::Item) -> S::Item {
    match input.upcoming(i as nat) {
        Some(frame) => frame,
        None => silence,
    }
}

/// The number of windows that the forward transform makes of `frames` frames
/// when it moves by `hop`: one for every hop that a frame falls into.
pub open spec fn spec_blocks(frames: nat, hop: nat) -> nat
    decreases frames,
{
    if frames == 0 || hop == 0 {
        0
    } else if frames <= hop {
        1
    } else {
        1 + spec_blocks((frames - hop) as nat, hop)
    }
}

/// The windows cover the frames, and less than one hop more.
pub proof fn lemma_blocks_cover(frames: nat, hop: nat)
    requires
        hop > 0,
    ensures
        frames <= spec_blocks(frames, hop) * hop < frames + hop,
    decreases frames,
{
    if frames == 0 {
        assert(spec_blocks(frames, hop) == 0);
        assert(0 * hop == 0);
    } else if frames <= hop {
        assert(spec_blocks(frames, hop) == 1);
        assert(1 * hop == hop);
    } else {
        lemma_blocks_cover((frames - hop) as nat, hop);
        let rest = spec_blocks((frames - hop) as nat, hop);
        assert(spec_blocks(frames, hop) == 1 + rest);
        assert((1 + rest) * hop == hop + rest * hop) by (nonlinear_arith);
    }
}

/// The number of frames that come out when `frames` frames pass the forward
/// transform and its inverse with windows of `window_size` frames that
/// overlap by half: every window gives as many frames as the windows
/// overlap by.
pub open spec fn spec_round_trip_frames(frames: nat, window_size: nat) -> nat {
    spec_blocks(frames, (window_size - window_size / 2) as nat) * (window_size / 2)
}

/// The transform and its inverse, with windows of an even size that overlap
/// by half, hand out as many frames as went in and less than one window of
/// padding more.
pub proof fn lemma_round_trip_frames(frames: nat, window_size: nat)
    requires
        window_size >= 2,
        window_size % 2 == 0,
    ensures
        frames <= spec_round_trip_frames(frames, window_size) < frames + window_size,
{
    lemma_blocks_cover(frames, window_size / 2);
}

/// Whether a number is a power of two: it has exactly one bit set.
pub open spec fn is_power_of_two(n: usize) -> bool {
    n > 0 && n & ((n - 1) as usize) == 0
}

/// Tells whether a window size is a power of two, as the transform needs it.
pub fn power_of_two(n: usize) -> (b: bool)
    ensures
        b == is_power_of_two(n),
{
    n > 0 && n & (n - 1) == 0
}

/// The sliding window of the forward transform over a source.
pub struct FromSource<S: Source> {
    pub input: S,
    pub window_size: usize,
    pub overlap: usize,
    /// The last `window_size` frames.
    pub window: VecDeque<S::Item>,
}

impl<S: Source> FromSource<S> where S::Item: Copy {
    /// The window is full, and the overlap is smaller than the window.
    pub open spec fn wf(&self) -> bool {
        &&& self.input.wf()
        &&& self.overlap < self.window_size
        &&& self.window@.len() == self.window_size
    }

    /// The number of frames by which the window moves per block.
    pub open spec fn hop(&self) -> int {
        self.window_size - self.overlap
    }

    /// The window after it has moved by one hop over the input.
    pub open spec fn spec_moved(&self, silence: S::Item) -> Seq<S::Item> {
        (self.window@ + Seq::new(
            self.hop() as nat,
            |i: int| window_frame(self.input, i, silence),
        )).skip(self.hop())
    }

    /// Starts the transform of `input` with windows of `window_size` frames, a
    /// power of two, that overlap by half. The first window is all `silence`.
    pub fn stft(input: S, window_size: usize, silence: S::Item) -> (r: FromSource<S>)
        requires
            input.wf(),
            is_power_of_two(window_size),
        ensures
            r.wf(),
            r.input == input,
            r.window_size == window_size,
            r.overlap == window_size / 2,
            r.window@ == Seq::new(window_size as nat, |i: int| silence),
    {
        let mut window: VecDeque<S::Item> = VecDeque::new();
        let mut i: usize = 0;
        while i < window_size
            invariant
                i <= window_size,
                window@ == Seq::new(i as nat, |k: int| silence),
            decreases window_size - i,
        {
            window.push_back(silence);
            i += 1;
            assert(window@ =~= Seq::new(i as nat, |k: int| silence));
        }
        FromSource { input, window_size, overlap: window_size / 2, window }
    }

    pub fn sample_rate(&self) -> (r: u32)
        requires
            self.wf(),
        ensures
            r == self.input.rate(),
    {
        self.input.sample_rate()
    }

    pub fn window_size(&self) -> (n: usize)
        ensures
            n == self.window_size,
    {
        self.window_size
    }

    pub fn window_overlap(&self) -> (n: usize)
        ensures
            n == self.overlap,
    {
        self.overlap
    }

    /// Moves the window by one hop and hands out its frames, oldest first. If
    /// the input has no frame left, there is no further window, and the old
    /// one stays. If the input ends within the hop, `silence` fills the rest.
    pub fn next(&mut self, silence: S::Item) -> (r: Option<Vec<S::Item>>)
        requires
            old(self).wf(),
        ensures
            final(self).wf(),
            final(self).window_size == old(self).window_size,
            final(self).overlap == old(self).overlap,
            final(self).input.rate() == old(self).input.rate(),
            match old(self).input.upcoming(0) {
                None => {
                    &&& r is None
                    &&& final(self).window@ == old(self).window@
                    &&& forall|n: nat| #[trigger]
                        final(self).input.upcoming(n) == old(self).input.upcoming(n + 1)
                },
                Some(_) => {
                    &&& r matches Some(frames) && frames@ == old(self).spec_moved(silence)
                    &&& final(self).window@ == old(self).spec_moved(silence)
                    &&& forall|n: nat| #[trigger]
                        final(self).input.upcoming(n) == old(self).input.upcoming(
                            (n + old(self).hop()) as nat,
                        )
                },
            },
            forall|frames: nat| #[trigger]
                has_frames(old(self).input, frames) ==> (r is Some <==> frames > 0) && has_frames(
                    final(self).input,
                    if frames >= old(self).hop() {
                        (frames - old(self).hop()) as nat
                    } else {
                        0
                    },
                ),
    {
        let hop: usize = self.window_size - self.overlap;
        let ghost start = *self;
        let ghost added = Seq::new(hop as nat, |i: int| window_frame(start.input, i, silence));
        let mut i: usize = 0;
        while i < hop
            invariant
                i <= hop,
                hop == start.hop(),
                start == *old(self),
                added == Seq::new(hop as nat, |i: int| window_frame(start.input, i, silence)),
                start.wf(),
                self.input.wf(),
                self.window_size == start.window_size,
                self.overlap == start.overlap,
                self.input.rate() == start.input.rate(),
                i > 0 ==> start.input.upcoming(0) is Some,
                forall|n: nat| #[trigger]
                    self.input.upcoming(n) == start.input.upcoming((n + i) as nat),
                self.window@ == (start.window@ + added.subrange(0, i as int)).skip(i as int),
            decreases hop - i,
        {
            let ghost before = self.window@;
            let ghost input_before = self.input;
            let frame = match self.input.next() {
                Some(frame) => frame,
                None => {
                    if i == 0 {
                        proof {
                            assert(start.window@ + added.subrange(0, 0) =~= start.window@);
                            assert(start.window@.skip(0) =~= start.window@);
                            assert forall|n: nat| #[trigger]
                                self.input.upcoming(n) == start.input.upcoming(n + 1) by {
                                assert(input_before.upcoming(n + 1) == start.input.upcoming(
                                    (n + 1 + 0) as nat,
                                ));
                            }
                            assert(start.input.upcoming(0) is None);
                            assert forall|frames: nat| #[trigger]
                                has_frames(start.input, frames) implies frames == 0 && has_frames(
                                self.input,
                                0,
                            ) by {
                                assert(!(start.input.upcoming(0) is Some));
                                assert forall|k: nat| !((#[trigger] self.input.upcoming(
                                    k,
                                )) is Some) by {
                                    assert(!(start.input.upcoming(k + 1) is Some));
                                }
                            }
                        }
                        return None;
                    }
                    silence
                },
            };
            proof {
                assert(input_before.upcoming(0) == start.input.upcoming((0 + i) as nat));
                assert(frame == added[i as int]);
                assert forall|n: nat| #[trigger]
                    self.input.upcoming(n) == start.input.upcoming((n + i + 1) as nat) by {
                    assert(input_before.upcoming(n + 1) == start.input.upcoming(
                        (n + 1 + i) as nat,
                    ));
                }
            }
            let _ = self.window.pop_front();
            self.window.push_back(frame);
            proof {
                assert(self.window@ =~= (start.window@ + added.subrange(0, i + 1)).skip(i + 1));
            }
            i += 1;
        }
        proof {
            assert(added.subrange(0, hop as int) =~= added);
        }
        let mut frames: Vec<S::Item> = Vec::new();
        let mut k: usize = 0;
        let ghost moved = *self;
        while k < self.window_size
            invariant
                k <= self.window_size,
                *self == moved,
                self.window@.len() == self.window_size,
                frames@ == self.window@.subrange(0, k as int),
            decreases self.window_size - k,
        {
            frames.push(self.window[k]);
            k += 1;
            assert(frames@ =~= self.window@.subrange(0, k as int));
        }
        proof {
            assert(frames@ =~= self.window@);
            assert(start.input.upcoming(0) is Some);
            assert forall|count: nat| #[trigger] has_frames(start.input, count) implies count > 0
                && has_frames(
                self.input,
                if count >= hop {
                    (count - hop) as nat
                } else {
                    0
                },
            ) by {
                assert forall|k: nat|
                    (#[trigger] self.input.upcoming(k)) is Some <==> k < (if count >= hop {
                        (count - hop) as nat
                    } else {
                        0
                    }) by {
                    assert(self.input.upcoming(k) == start.input.upcoming((k + hop) as nat));
                }
            }
        }
        Some(frames)
    }
}

/// One output frame of the inverse transform before its two halves are mixed:
/// a frame of the window that ends and one of the window that begins, each
/// with the index of its weight in the table of squared window values.
pub struct Mix<F> {
    pub ending: F,
    pub ending_weight: usize,
    pub beginning: F,
    pub beginning_weight: usize,
}

/// The two reconstructed windows that the inverse transform overlaps: `front`
/// holds what is left to emit of the window that ends, `back` the window that
/// begins.
pub struct Inverse<F> {
    pub window_size: usize,
    pub overlap: usize,
    pub front: VecDeque<F>,
    pub back: VecDeque<F>,
}

impl<F: Copy> Inverse<F> {
    /// The sizes fit, the window that begins is whole, and of the one that
    /// ends no more than the overlap is left.
    pub open spec fn wf(&self) -> bool {
        &&& self.overlap < self.window_size
        &&& 2 * self.overlap <= self.window_size
        &&& self.back@.len() == self.window_size
        &&& self.front@.len() <= self.overlap
    }

    /// Starts the inverse of a transform with the given sizes: nothing is left
    /// of a window that ends, and the window that begins is all `silence`.
    pub fn inverse(window_size: usize, overlap: usize, silence: F) -> (r: Inverse<F>)
        requires
            is_power_of_two(window_size),
            overlap < window_size,
            2 * overlap <= window_size,
        ensures
            r.wf(),
            r.window_size == window_size,
            r.overlap == overlap,
            r.front@ == Seq::<F>::empty(),
            r.back@ == Seq::new(window_size as nat, |i: int| silence),
    {
        let mut back: VecDeque<F> = VecDeque::new();
        let mut i: usize = 0;
        while i < window_size
            invariant
                i <= window_size,
                back@ == Seq::new(i as nat, |k: int| silence),
            decreases window_size - i,
        {
            back.push_back(silence);
            i += 1;
            assert(back@ =~= Seq::new(i as nat, |k: int| silence));
        }
        Inverse { window_size, overlap, front: VecDeque::new(), back }
    }

    /// Whether the window that ends is used up, so that the next frame needs
    /// a new window first.
    pub fn needs_window(&self) -> (b: bool)
        ensures
            b == (self.front@.len() == 0),
    {
        self.front.len() == 0
    }

    /// Takes in the next reconstructed window: the window that began becomes
    /// the one that ends, without the part that lies before the overlap.
    pub fn push_window(&mut self, window: Vec<F>)
        requires
            old(self).wf(),
            old(self).front@.len() == 0,
            window@.len() == old(self).window_size,
        ensures
            final(self).wf(),
            final(self).window_size == old(self).window_size,
            final(self).overlap == old(self).overlap,
            final(self).back@ == window@,
            final(self).front@ == old(self).back@.skip(old(self).window_size - old(self).overlap),
            final(self).front@.len() == old(self).overlap,
    {
        let mut next: VecDeque<F> = VecDeque::new();
        let mut i: usize = 0;
        while i < window.len()
            invariant
                i <= window@.len(),
                next@ == window@.subrange(0, i as int),
            decreases window@.len() - i,
        {
            next.push_back(window[i]);
            i += 1;
            assert(next@ =~= window@.subrange(0, i as int));
        }
        proof {
            assert(next@ =~= window@);
        }
        core::mem::swap(&mut self.back, &mut next);
        core::mem::swap(&mut self.front, &mut next);
        let ghost whole = self.front@;
        let drop: usize = self.window_size - self.overlap;
        let mut k: usize = 0;
        while k < drop
            invariant
                k <= drop,
                drop == self.window_size - self.overlap,
                self.overlap < self.window_size,
                2 * self.overlap <= self.window_size,
                self.window_size == old(self).window_size,
                self.overlap == old(self).overlap,
                whole.len() == self.window_size,
                self.back@ == window@,
                self.front@ == whole.skip(k as int),
            decreases drop - k,
        {
            let _ = self.front.pop_front();
            k += 1;
            assert(self.front@ =~= whole.skip(k as int));
        }
    }

    /// The next output frame as its two halves. Frame `n` of an overlap pairs
    /// frame `window_size - overlap + n` of the window that ends, weighted by
    /// entry `n + overlap` of the table, with frame `n` of the window that
    /// begins, weighted by entry `n`. There is none while a window is needed.
    pub fn next(&mut self) -> (r: Option<Mix<F>>)
        requires
            old(self).wf(),
        ensures
            final(self).wf(),
            final(self).window_size == old(self).window_size,
            final(self).overlap == old(self).overlap,
            final(self).back@ == old(self).back@,
            r is None <==> old(self).front@.len() == 0,
            r is None ==> final(self).front@ == old(self).front@,
            r matches Some(mix) ==> {
                let n = old(self).overlap - old(self).front@.len();
                &&& final(self).front@ == old(self).front@.skip(1)
                &&& mix.ending == old(self).front@[0]
                &&& mix.ending_weight == n + old(self).overlap
                &&& mix.beginning == old(self).back@[n]
                &&& mix.beginning_weight == n
                &&& mix.ending_weight < old(self).window_size
            },
    {
        if self.front.len() == 0 {
            return None;
        }
        let n: usize = self.overlap - self.front.len();
        let ending = match self.front.pop_front() {
            Some(frame) => frame,
            None => {
                return None;
            },
        };
        let beginning = self.back[n];
        Some(Mix { ending, ending_weight: n + self.overlap, beginning, beginning_weight: n })
    }
}

} // verus!
