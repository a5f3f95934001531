//! What an audio output reports, and which sample kinds it takes.

use vstd::prelude::*;
use crate::audio::dynam::SampleKind;
use crate::audio::{frames_of, has_frames, Duration, Sink, Source};

verus! {

/// What an output reports while it plays. A volume is given by the bits of its
/// 64-bit float.
#[derive(Debug, PartialEq, Eq)]
pub enum Event {
    /// The output could read no further frame. Not reported after an error, nor
    /// when the output is dropped.
    End,
    Volume(u64),
    /// The device failed; the text says how.
    Error(String),
}

/// The sample kind in which the output device takes frames of a kind: the
/// unsigned 8-bit, signed 16-bit, signed 24-bit and 32-bit float kinds as they
/// are, signed 8-bit as unsigned, unsigned 16-bit and 24-bit as signed, and
/// every other kind as 32-bit float.
pub open spec fn spec_device_kind(kind: SampleKind) -> SampleKind {
    match kind {
        SampleKind::I8 | SampleKind::U8 => SampleKind::U8,
        SampleKind::I16 | SampleKind::U16 => SampleKind::I16,
        SampleKind::I24 | SampleKind::U24 => SampleKind::I24,
        _ => SampleKind::F32,
    }
}

/// Whether the device takes frames of this kind as they are.
pub open spec fn spec_is_device_kind(kind: SampleKind) -> bool {
    kind == SampleKind::U8 || kind == SampleKind::I16 || kind == SampleKind::I24 || kind
        == SampleKind::F32
}

/// The sample kind to which frames are converted before they reach the
/// device.
pub fn device_kind(kind: SampleKind) -> (r: SampleKind)
    ensures
        r == spec_device_kind(kind),
        spec_is_device_kind(r),
        spec_is_device_kind(kind) ==> r == kind,
{
    match kind {
        SampleKind::I8 | SampleKind::U8 => SampleKind::U8,
        SampleKind::I16 | SampleKind::U16 => SampleKind::I16,
        SampleKind::I24 | SampleKind::U24 => SampleKind::I24,
        _ => SampleKind::F32,
    }
}

/// How the worker of an output goes on after a frame.
#[derive(Debug, PartialEq, Eq)]
pub enum Progress {
    /// Pull the next frame.
    Continue,
    /// Leave, after reporting the event if there is one.
    Stop(Option<Event>),
}

/// One turn of an output's worker, which pulls frames from a pipeline and
/// writes them to a sink: takes what the pipeline yielded. The end of the
/// pipeline is reported as `End`; a stream that its owner has closed ends
/// without a report, whatever was pulled; a frame that the sink refuses is
/// reported as an error. Every other frame is written, and the worker goes on.
pub fn deliver<F, K: Sink<F>>(pulled: Option<F>, sink: &mut K, closed: bool) -> (r: Progress)
    ensures
        final(sink).rate() == old(sink).rate(),
        match pulled {
            None => r == Progress::Stop(Some(Event::End)) && final(sink).written() == old(sink).written(),
            Some(frame) => if closed {
                r == Progress::Stop(None) && final(sink).written() == old(sink).written()
            } else {
                match r {
                    Progress::Continue => final(sink).written() == old(sink).written().push(frame),
                    Progress::Stop(Some(Event::Error(_))) => final(sink).written() == old(sink).written(),
                    _ => false,
                }
            },
        },
{
    match pulled {
        None => Progress::Stop(Some(Event::End)),
        Some(frame) => {
            if closed {
                return Progress::Stop(None);
            }
            written(sink.write_frame(frame))
        },
    }
}

/// The whole run of an output's worker on a stream that stays open, over a
/// source that ends: every frame is pulled and written in turn. After the last
/// frame the end is reported, once, and all frames have been written in the
/// order of the source. A frame that the sink refuses ends the run with that
/// error: the frames before it have been written, no further frame is pulled,
/// and the end is not reported.
pub fn consume<S: Source, K: Sink<S::Item>>(source: &mut S, sink: &mut K) -> (event: Event)
    requires
        old(source).wf(),
        exists|count: nat| has_frames(*old(source), count),
    ensures
        final(source).wf(),
        final(source).rate() == old(source).rate(),
        final(sink).rate() == old(sink).rate(),
        exists|count: nat, written: nat|
            #![trigger has_frames(*old(source), count), frames_of(*old(source), written)]
            {
                &&& has_frames(*old(source), count)
                &&& written <= count
                &&& final(sink).written() == old(sink).written() + frames_of(
                    *old(source),
                    written,
                )
                &&& forall|n: nat| #[trigger]
                    final(source).upcoming(n) == old(source).upcoming(n + written + 1)
                &&& match event {
                    Event::End => written == count,
                    Event::Error(_) => written < count,
                    Event::Volume(_) => false,
                }
            },
{
    let ghost count = choose|count: nat| has_frames(*source, count);
    let ghost start = *source;
    let ghost had = sink.written();
    let ghost mut done: nat = 0;
    proof {
        assert(frames_of(start, 0) =~= Seq::<S::Item>::empty());
        assert(had + frames_of(start, 0) =~= had);
    }
    loop
        invariant
            source.wf(),
            source.rate() == start.rate(),
            sink.rate() == old(sink).rate(),
            start == *old(source),
            had == old(sink).written(),
            has_frames(start, count),
            done <= count,
            forall|n: nat| #[trigger] source.upcoming(n) == start.upcoming(n + done),
            sink.written() == had + frames_of(start, done),
        decreases count - done,
    {
        let ghost before = *source;
        let pulled = source.next();
        proof {
            assert(before.upcoming(0) == start.upcoming(0 + done));
            assert forall|n: nat| #[trigger] source.upcoming(n) == start.upcoming(
                n + done + 1,
            ) by {
                assert(before.upcoming(n + 1) == start.upcoming((n + 1) + done));
            }
        }
        let ghost frame = pulled;
        match deliver(pulled, sink, false) {
            Progress::Continue => {
                proof {
                    assert(frame is Some);
                    assert(done < count);
                    assert(frames_of(start, done + 1) =~= frames_of(start, done).push(frame->0));
                    assert(had + frames_of(start, done + 1) =~= (had + frames_of(start, done)).push(
                        frame->0,
                    ));
                    done = done + 1;
                }
            },
            Progress::Stop(Some(event)) => {
                proof {
                    if frame is None {
                        assert(done == count);
                    } else {
                        assert(done < count);
                    }
                    assert(has_frames(start, count));
                    assert(sink.written() == had + frames_of(start, done));
                }
                return event;
            },
            Progress::Stop(None) => {
                return Event::End;
            },
        }
    }
}

/// What the worker does after a write: it goes on after a success, and
/// reports a failure and leaves.
pub fn written(result: Result<(), String>) -> (r: Progress)
    ensures
        r == match result {
            Ok(()) => Progress::Continue,
            Err(text) => Progress::Stop(Some(Event::Error(text))),
        },
{
    match result {
        Ok(()) => Progress::Continue,
        Err(text) => Progress::Stop(Some(Event::Error(text))),
    }
}

/// The latency of a stream as a time, from the number that the device
/// reports: its thousand millions are the seconds, the rest the nanoseconds.
pub fn latency_of(reported: u64) -> (d: Duration)
    ensures
        d == (Duration {
            secs: reported / 1_000_000_000,
            nanos: (reported % 1_000_000_000) as u32,
        }),
{
    Duration { secs: reported / 1_000_000_000, nanos: (reported % 1_000_000_000) as u32 }
}

} // verus!
