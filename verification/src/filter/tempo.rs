//! The tempo filter: stretches or compresses a stream of transform blocks by
//! handing some blocks out more than once and skipping others. How many blocks
//! a step takes in, which one it hands out and how many it lets go is
//! computed from the tempo ratio by the caller; this module does the taking,
//! handing out and letting go.

use std::collections::VecDeque;
use vstd::pervasive::cloned;
use vstd::prelude::*;
use crate::audio::{has_frames, Source};
use crate::filter::stft::{lemma_blocks_cover, spec_blocks};

verus! {

/// The counts of one step. For a consumption `c` in `[0, 1)` carried over from
/// the step before and a ratio `r` above zero they are the ceiling of `c + r`,
/// the floor of half of it and its floor.
#[derive(Copy, Clone, Debug, PartialEq, Eq, Structural)]
pub struct Step {
    /// How many blocks to take in, fewer only where the input ends.
    pub pull: usize,
    /// The index of the block to hand out among those held.
    pub select: usize,
    /// How many of the oldest blocks to let go afterwards.
    pub drain: usize,
}

/// How many blocks a step takes from `input` when it asks for `limit`: the
/// blocks up to the first end, `limit` at most.
pub open spec fn taken<S: Source>(input: S, limit: nat) -> nat
    decreases limit,
{
    if limit == 0 {
        0
    } else {
        let before = taken(input, (limit - 1) as nat);
        if before == limit - 1 && input.upcoming(before) is Some {
            limit
        } else {
            before
        }
    }
}

/// How often a step that asks for `limit` blocks calls the input: once more
/// than it takes where the input ends before.
pub open spec fn calls<S: Source>(input: S, limit: nat) -> nat {
    if taken(input, limit) < limit {
        taken(input, limit) + 1
    } else {
        limit
    }
}

/// The blocks that a step takes from `input` when it asks for `limit`.
pub open spec fn taken_blocks<S: Source>(input: S, limit: nat) -> Seq<S::Item> {
    Seq::new(taken(input, limit), |i: int| input.upcoming(i as nat)->0)
}

/// Every block that counts as taken is there.
pub proof fn lemma_taken<S: Source>(input: S, limit: nat)
    ensures
        taken(input, limit) <= limit,
        forall|i: nat| i < taken(input, limit) ==> (#[trigger] input.upcoming(i)) is Some,
        taken(input, limit) < limit ==> input.upcoming(taken(input, limit)) is None,
    decreases limit,
{
    if limit > 0 {
        lemma_taken(input, (limit - 1) as nat);
    }
}

/// The tempo filter over a source of blocks.
pub struct PhaseVocoder<S: Source> {
    pub input: S,
    /// The blocks that were taken in and not yet let go, oldest first.
    pub accum: VecDeque<S::Item>,
}

impl<S: Source> PhaseVocoder<S> where S::Item: Clone {
    /// Puts the filter behind a source of blocks.
    pub fn adjust_tempo(input: S) -> (r: PhaseVocoder<S>)
        ensures
            r.input == input,
            r.accum@ == Seq::<S::Item>::empty(),
    {
        PhaseVocoder { input, accum: VecDeque::new() }
    }

    pub fn sample_rate(&self) -> (r: u32)
        requires
            self.input.wf(),
        ensures
            r == self.input.rate(),
    {
        self.input.sample_rate()
    }

    /// The blocks held after a step has taken in what it asked for.
    pub open spec fn spec_held(&self, step: Step) -> Seq<S::Item> {
        self.accum@ + taken_blocks(self.input, step.pull as nat)
    }

    /// One step: takes in up to `pull` blocks, hands out a copy of the block
    /// at `select` and lets the `drain` oldest go. Where the block at `select`
    /// is not there the filter ends, and what it took in stays held.
    pub fn next(&mut self, step: Step) -> (r: Option<S::Item>)
        requires
            old(self).input.wf(),
        ensures
            final(self).input.wf(),
            final(self).input.rate() == old(self).input.rate(),
            forall|n: nat| #[trigger]
                final(self).input.upcoming(n) == old(self).input.upcoming(
                    n + calls(old(self).input, step.pull as nat),
                ),
            r is Some <==> step.select < old(self).spec_held(step).len(),
            r matches Some(block) ==> cloned(old(self).spec_held(step)[step.select as int], block),
            r is None ==> final(self).accum@ == old(self).spec_held(step),
            r is Some ==> final(self).accum@ == old(self).spec_held(step).skip(
                if step.drain <= old(self).spec_held(step).len() {
                    step.drain as int
                } else {
                    old(self).spec_held(step).len() as int
                },
            ),
    {
        let ghost start = *self;
        let mut pulled: usize = 0;
        let mut ended: bool = false;
        while pulled < step.pull && !ended
            invariant
                pulled <= step.pull,
                start == *old(self),
                self.input.wf(),
                self.input.rate() == start.input.rate(),
                !ended ==> pulled == taken(start.input, pulled as nat),
                ended ==> pulled == taken(start.input, (pulled + 1) as nat) && pulled < step.pull,
                forall|n: nat| #[trigger]
                    self.input.upcoming(n) == start.input.upcoming(
                        (n + pulled + if ended { 1int } else { 0int }) as nat,
                    ),
                self.accum@ == start.accum@ + taken_blocks(start.input, pulled as nat),
            decreases step.pull - pulled, if ended { 0int } else { 1int },
        {
            let ghost input_before = self.input;
            let ghost accum_before = self.accum@;
            proof {
                lemma_taken(start.input, pulled as nat);
                assert(input_before.upcoming(0) == start.input.upcoming((0 + pulled + 0int) as nat));
            }
            match self.input.next() {
                Some(block) => {
                    self.accum.push_back(block);
                    proof {
                        assert(taken(start.input, (pulled + 1) as nat) == pulled + 1);
                        assert(self.accum@ =~= start.accum@ + taken_blocks(
                            start.input,
                            (pulled + 1) as nat,
                        ));
                        assert forall|n: nat| #[trigger]
                            self.input.upcoming(n) == start.input.upcoming(
                                (n + (pulled + 1) + 0int) as nat,
                            ) by {
                            assert(input_before.upcoming(n + 1) == start.input.upcoming(
                                ((n + 1) + pulled + 0int) as nat,
                            ));
                        }
                    }
                    pulled += 1;
                },
                None => {
                    proof {
                        assert(taken(start.input, (pulled + 1) as nat) == pulled);
                        assert forall|n: nat| #[trigger]
                            self.input.upcoming(n) == start.input.upcoming(
                                (n + pulled + 1int) as nat,
                            ) by {
                            assert(input_before.upcoming(n + 1) == start.input.upcoming(
                                ((n + 1) + pulled + 0int) as nat,
                            ));
                        }
                    }
                    ended = true;
                },
            }
        }
        proof {
            lemma_taken_stable(start.input, pulled as nat, step.pull as nat, ended);
        }
        if step.select >= self.accum.len() {
            return None;
        }
        let block = self.accum[step.select].clone();
        let available: usize = self.accum.len();
        let drain: usize = if step.drain <= available {
            step.drain
        } else {
            available
        };
        let ghost held = self.accum@;
        let ghost input_after = self.input;
        let mut k: usize = 0;
        while k < drain
            invariant
                k <= drain <= held.len(),
                self.input == input_after,
                self.accum@ == held.skip(k as int),
            decreases drain - k,
        {
            let _ = self.accum.pop_front();
            k += 1;
            assert(self.accum@ =~= held.skip(k as int));
        }
        Some(block)
    }
}

/// Once the input has ended within the first blocks asked for, asking for
/// more takes no more.
proof fn lemma_taken_stable<S: Source>(input: S, pulled: nat, limit: nat, ended: bool)
    requires
        pulled <= limit,
        !ended ==> pulled == taken(input, pulled) && pulled == limit,
        ended ==> pulled == taken(input, pulled + 1) && pulled < limit,
    ensures
        taken(input, limit) == pulled,
        calls(input, limit) == pulled + if ended { 1nat } else { 0nat },
        taken_blocks(input, limit) == taken_blocks(input, taken(input, pulled)),
        taken(input, pulled) == pulled,
    decreases limit,
{
    lemma_taken(input, pulled);
    lemma_taken(input, pulled + 1);
    if ended {
        if limit > pulled + 1 {
            lemma_taken_stable(input, pulled, (limit - 1) as nat, ended);
        }
        assert(taken(input, pulled) == pulled);
    }
    assert(taken_blocks(input, limit) =~= taken_blocks(input, pulled));
}

/// Of a source with exactly `blocks` blocks left, a step that asks for
/// `limit` takes that many, or all there are, in which case it calls the
/// source once more and learns of its end.
pub proof fn lemma_taken_of_finite<S: Source>(input: S, limit: nat, blocks: nat)
    requires
        has_frames(input, blocks),
    ensures
        taken(input, limit) == if limit <= blocks {
            limit
        } else {
            blocks
        },
        calls(input, limit) == if limit <= blocks {
            limit
        } else {
            blocks + 1
        },
    decreases limit,
{
    if limit > 0 {
        lemma_taken_of_finite(input, (limit - 1) as nat, blocks);
        let before = taken(input, (limit - 1) as nat);
        assert(input.upcoming(before) is Some <==> before < blocks);
    }
}

/// The counts of a step at twice the tempo, where nothing is carried over
/// from the step before: two blocks are taken in, the second is handed out,
/// and both are let go.
pub open spec fn double_step() -> Step {
    Step { pull: 2, select: 1, drain: 2 }
}

/// One step at twice the tempo, of a filter that holds nothing, over a source
/// with exactly `blocks` blocks left: a block comes out exactly where two are
/// left; then nothing stays held, and the source has two blocks fewer. Where
/// fewer than two are left, the source is used up.
pub proof fn lemma_double_step<S: Source>(filter: PhaseVocoder<S>, after: S, blocks: nat) where
    S::Item: Clone,

    requires
        filter.accum@.len() == 0,
        has_frames(filter.input, blocks),
        forall|n: nat| #[trigger] after.upcoming(n) == filter.input.upcoming(
            n + calls(filter.input, 2),
        ),
    ensures
        1 < filter.spec_held(double_step()).len() <==> blocks >= 2,
        blocks >= 2 ==> filter.spec_held(double_step()).skip(2).len() == 0,
        has_frames(
            after,
            if blocks >= 2 {
                (blocks - 2) as nat
            } else {
                0
            },
        ),
{
    lemma_taken_of_finite(filter.input, 2, blocks);
    let called = calls(filter.input, 2);
    assert forall|k: nat| (#[trigger] after.upcoming(k)) is Some <==> k < (if blocks >= 2 {
        (blocks - 2) as nat
    } else {
        0
    }) by {
        assert(after.upcoming(k) == filter.input.upcoming(k + called));
    }
}

/// The number of blocks that come out of `blocks` blocks at twice the tempo:
/// one for every two.
pub open spec fn spec_double_blocks(blocks: nat) -> nat
    decreases blocks,
{
    if blocks < 2 {
        0
    } else {
        1 + spec_double_blocks((blocks - 2) as nat)
    }
}

/// At twice the tempo half of the blocks come out, rounded down.
pub proof fn lemma_double_blocks(blocks: nat)
    ensures
        spec_double_blocks(blocks) == blocks / 2,
    decreases blocks,
{
    if blocks >= 2 {
        lemma_double_blocks((blocks - 2) as nat);
    }
}

/// The number of frames that come out when `frames` frames pass the forward
/// transform, the tempo filter at twice the tempo and the inverse transform,
/// with windows of `window_size` frames that overlap by half.
pub open spec fn spec_double_tempo_frames(frames: nat, window_size: nat) -> nat {
    spec_double_blocks(spec_blocks(frames, (window_size - window_size / 2) as nat)) * (window_size
        / 2)
}

/// At twice the tempo, half of the frames come out, give or take half a
/// window.
pub proof fn lemma_double_tempo_frames(frames: nat, window_size: nat)
    requires
        window_size >= 2,
        window_size % 2 == 0,
    ensures
        frames - window_size <= 2 * spec_double_tempo_frames(frames, window_size) <= frames
            + window_size,
{
    let hop = window_size / 2;
    let blocks = spec_blocks(frames, hop);
    lemma_blocks_cover(frames, hop);
    lemma_double_blocks(blocks);
    let out = blocks / 2;
    assert(blocks - 1 <= 2 * out <= blocks);
    assert((blocks - 1) * hop <= (2 * out) * hop <= blocks * hop && (2 * out) * hop == 2 * (out
        * hop) && (blocks - 1) * hop == blocks * hop - hop) by (nonlinear_arith)
        requires
            blocks - 1 <= 2 * out <= blocks,
            hop >= 1,
    ;
}

} // verus!
