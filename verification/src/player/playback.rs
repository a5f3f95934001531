//! One playback: its transport state, its position and tempo, the events it
//! reports, and the two stages of its pipeline that hold back and count frames.

use vstd::prelude::*;
use crate::audio::dynam;
use crate::audio::{duration_of, spec_duration_of, Duration, SeekError, Seekable, Source};
use crate::player::output;

verus! {

/// Whether a playback runs, waits or has ended.
#[derive(Debug, PartialEq, Eq, Copy, Clone, Structural)]
pub enum State {
    Playing,
    Paused,
    Stopped,
}

/// What a playback reports. A tempo is given by the bits of its 64-bit float.
#[derive(Debug, PartialEq, Eq)]
pub enum Event {
    Position(u64),
    State(State),
    Tempo(u64),
    Output(output::Event),
}

/// The bits of the 64-bit float 1.0.
pub const UNIT_TEMPO: u64 = 0x3FF0_0000_0000_0000;

/// The window size of the transform that a seekable playback runs.
pub const WINDOW_SIZE: usize = 1024;

/// Whether `bits` encode a 64-bit float above zero: positive sign, not zero,
/// and no NaN.
pub open spec fn is_positive_tempo(bits: u64) -> bool {
    0 < bits <= 0x7FF0_0000_0000_0000
}

/// The state after `wanted` is asked for in `current`: `Stopped` absorbs every
/// request.
pub open spec fn next_state(current: State, wanted: State) -> State {
    if current == State::Stopped {
        State::Stopped
    } else {
        wanted
    }
}

/// Once stopped, a playback stays stopped whatever is asked for, and from
/// every other state each request is granted.
pub proof fn lemma_stopped_absorbs(current: State, wanted: State)
    ensures
        next_state(State::Stopped, wanted) == State::Stopped,
        current != State::Stopped ==> next_state(current, wanted) == wanted,
        next_state(next_state(current, State::Stopped), wanted) == State::Stopped,
{
}

/// A stage of a playback's pipeline, in the order in which frames pass.
#[derive(Debug, PartialEq, Eq, Copy, Clone, Structural)]
pub enum Stage {
    /// The decoder behind a lock, so that it can be sought while it is read.
    Shared,
    /// The forward transform with the given window size.
    Stft(usize),
    /// The tempo filter under the shared ratio.
    AdjustTempo,
    /// The inverse transform.
    Inverse,
    /// The valve that pauses and stops.
    FlowControl,
    /// The counter of frames that passed.
    SampleCounter,
}

/// The stages that audio of a capability passes before it reaches the output.
pub open spec fn spec_stages(seekable: bool) -> Seq<Stage> {
    if seekable {
        seq![
            Stage::Shared,
            Stage::Stft(WINDOW_SIZE),
            Stage::AdjustTempo,
            Stage::Inverse,
            Stage::FlowControl,
            Stage::SampleCounter,
        ]
    } else {
        seq![Stage::FlowControl, Stage::SampleCounter]
    }
}

/// The transport of one audio item. `K` is the handle through which a
/// seekable decoder is reached.
pub struct Playback<K> {
    pub sample_rate: u32,
    pub flow_state: State,
    pub sample_counter: u64,
    /// The tempo ratio as the bits of a 64-bit float, where the pipeline has
    /// a tempo stage.
    pub tempo: Option<u64>,
    pub seekable: Option<K>,
    /// Whether the state `Stopped` has been reported. It is reported once.
    pub stop_reported: bool,
}

impl<K: Seekable> Playback<K> {
    /// The handle, where there is one, is usable.
    pub open spec fn wf(&self) -> bool {
        self.seekable matches Some(handle) ==> handle.valid()
    }

    /// Only of a stopped playback has `Stopped` been reported.
    pub open spec fn consistent(&self) -> bool {
        self.stop_reported ==> self.flow_state == State::Stopped
    }

    /// The index of the frame that is read next: the decoder's where it can
    /// seek, else the count of frames that passed.
    pub open spec fn spec_position(&self) -> u64 {
        match self.seekable {
            Some(handle) => handle.cursor(),
            None => self.sample_counter,
        }
    }

    /// The playback that audio of either capability starts as: paused, nothing
    /// counted, and at unit tempo with its decoder's handle where it can seek
    /// and a handle is given.
    pub open spec fn spec_new(audio: dynam::Audio, handle: Option<K>) -> Playback<K> {
        match (audio, handle) {
            (dynam::Audio::Seek(seek), Some(h)) => Playback {
                sample_rate: seek.rate,
                flow_state: State::Paused,
                sample_counter: 0,
                tempo: Some(UNIT_TEMPO),
                seekable: Some(h),
                stop_reported: false,
            },
            (dynam::Audio::Seek(seek), None) => Playback {
                sample_rate: seek.rate,
                flow_state: State::Paused,
                sample_counter: 0,
                tempo: None,
                seekable: None,
                stop_reported: false,
            },
            (dynam::Audio::Source(source), _) => Playback {
                sample_rate: source.rate,
                flow_state: State::Paused,
                sample_counter: 0,
                tempo: None,
                seekable: None,
                stop_reported: false,
            },
        }
    }

    /// A playback of audio of either capability. A seekable one comes with
    /// the handle to its decoder.
    pub fn new(audio: dynam::Audio, handle: Option<K>) -> (p: Playback<K>)
        requires
            handle matches Some(h) ==> h.valid(),
        ensures
            p.wf(),
            p == Self::spec_new(audio, handle),
    {
        match audio {
            dynam::Audio::Source(source) => Playback::from_source(source),
            dynam::Audio::Seek(seek) => match handle {
                Some(h) => Playback::from_seek(seek, h),
                None => Playback::from_source(seek.into_source()),
            },
        }
    }

    /// A playback of a plain source: neither tempo nor seeking.
    pub fn from_source(source: dynam::Source) -> (p: Playback<K>)
        ensures
            p.wf(),
            p.sample_rate == source.rate,
            p.flow_state == State::Paused,
            p.sample_counter == 0,
            p.tempo is None,
            p.seekable is None,
            !p.stop_reported,
    {
        Playback {
            sample_rate: source.rate,
            flow_state: State::Paused,
            sample_counter: 0,
            tempo: None,
            seekable: None,
            stop_reported: false,
        }
    }

    /// A playback of a seekable source, at unit tempo.
    pub fn from_seek(seek: dynam::Seek, handle: K) -> (p: Playback<K>)
        requires
            handle.valid(),
        ensures
            p.wf(),
            p.sample_rate == seek.rate,
            p.flow_state == State::Paused,
            p.sample_counter == 0,
            p.tempo == Some(UNIT_TEMPO),
            p.seekable == Some(handle),
            !p.stop_reported,
    {
        Playback {
            sample_rate: seek.rate,
            flow_state: State::Paused,
            sample_counter: 0,
            tempo: Some(UNIT_TEMPO),
            seekable: Some(handle),
            stop_reported: false,
        }
    }

    /// The stages of this playback's pipeline, first to last.
    pub fn stages(&self) -> (s: Vec<Stage>)
        ensures
            s@ == spec_stages(self.seekable is Some),
    {
        let mut s: Vec<Stage> = Vec::new();
        if self.seekable.is_some() {
            s.push(Stage::Shared);
            s.push(Stage::Stft(WINDOW_SIZE));
            s.push(Stage::AdjustTempo);
            s.push(Stage::Inverse);
        }
        s.push(Stage::FlowControl);
        s.push(Stage::SampleCounter);
        proof {
            assert(s@ =~= spec_stages(self.seekable is Some));
        }
        s
    }

    /// The total number of frames, if known.
    pub fn duration(&self) -> (d: Option<u64>)
        requires
            self.wf(),
        ensures
            d == match self.seekable {
                Some(handle) => Some(handle.size()),
                None => None,
            },
    {
        match &self.seekable {
            Some(handle) => Some(handle.length()),
            None => None,
        }
    }

    /// The total duration, if known.
    pub fn duration_time(&self) -> (d: Option<Duration>)
        requires
            self.wf(),
            self.sample_rate > 0,
        ensures
            d == match self.seekable {
                Some(handle) => Some(spec_duration_of(self.sample_rate, handle.size())),
                None => None,
            },
    {
        match self.duration() {
            Some(num_samples) => Some(duration_of(self.sample_rate, num_samples)),
            None => None,
        }
    }

    /// The index of the frame that is read next.
    pub fn position(&self) -> (p: u64)
        requires
            self.wf(),
        ensures
            p == self.spec_position(),
    {
        match &self.seekable {
            Some(handle) => handle.current_position(),
            None => self.sample_counter,
        }
    }

    /// Seeks to the frame at `position` and reports the new position. Without
    /// a decoder that can seek nothing moves, and the position is reported all
    /// the same. A failed seek is handed back and reports nothing.
    pub fn set_position(&mut self, position: u64) -> (r: Result<Event, SeekError>)
        requires
            old(self).wf(),
        ensures
            final(self).wf(),
            final(self).sample_rate == old(self).sample_rate,
            final(self).flow_state == old(self).flow_state,
            final(self).sample_counter == old(self).sample_counter,
            final(self).tempo == old(self).tempo,
            final(self).stop_reported == old(self).stop_reported,
            final(self).seekable is Some <==> old(self).seekable is Some,
            old(self).seekable is None ==> r == Ok::<Event, SeekError>(Event::Position(position)),
            r matches Ok(event) ==> event == Event::Position(position),
            match (old(self).seekable, final(self).seekable) {
                (Some(before), Some(after)) => {
                    &&& after.size() == before.size()
                    &&& r is Ok ==> position < before.size() && after.cursor() == position
                    &&& position >= before.size() ==> r == Err::<Event, SeekError>(
                        SeekError::OutofRange { pos: position, size: before.size() },
                    ) && after.cursor() == before.cursor()
                    &&& r matches Err(SeekError::OutofRange { pos, size }) ==> position
                        >= before.size()
                },
                _ => true,
            },
    {
        match &mut self.seekable {
            Some(handle) => {
                match handle.seek(position) {
                    Ok(()) => Ok(Event::Position(position)),
                    Err(e) => Err(e),
                }
            },
            None => Ok(Event::Position(position)),
        }
    }

    /// The frame at which a time lies: its whole seconds times the sample
    /// rate.
    pub open spec fn spec_frame_of(&self, timestamp: Duration) -> int {
        timestamp.secs * self.sample_rate
    }

    /// Seeks to a time, of which the whole seconds count. A time whose frame
    /// does not fit in 64 bits lies behind every end.
    pub fn set_position_time(&mut self, timestamp: Duration) -> (r: Result<Event, SeekError>)
        requires
            old(self).wf(),
            old(self).spec_frame_of(timestamp) <= u64::MAX,
        ensures
            final(self).wf(),
            final(self).sample_rate == old(self).sample_rate,
            final(self).seekable is Some <==> old(self).seekable is Some,
            r matches Ok(event) ==> event == Event::Position(
                old(self).spec_frame_of(timestamp) as u64,
            ),
            old(self).seekable is None ==> r is Ok,
            match (old(self).seekable, final(self).seekable) {
                (Some(before), Some(after)) => {
                    &&& after.size() == before.size()
                    &&& r is Ok ==> after.cursor() == old(self).spec_frame_of(timestamp)
                    &&& old(self).spec_frame_of(timestamp) >= before.size() ==> r is Err
                },
                _ => true,
            },
    {
        proof {
            assert(timestamp.secs * self.sample_rate == self.spec_frame_of(timestamp));
        }
        let frame: u64 = timestamp.secs * (self.sample_rate as u64);
        self.set_position(frame)
    }

    /// The current position as a time.
    pub fn position_time(&self) -> (d: Duration)
        requires
            self.wf(),
            self.sample_rate > 0,
        ensures
            d == spec_duration_of(self.sample_rate, self.spec_position()),
    {
        duration_of(self.sample_rate, self.position())
    }

    pub fn state(&self) -> (s: State)
        ensures
            s == self.flow_state,
    {
        self.flow_state
    }

    /// Asks for a state. A stopped playback stays stopped, and the request
    /// is ignored. A change of state is reported, `Stopped` only where it has
    /// not been reported before. Whoever waits on the state has to be woken
    /// afterwards.
    pub fn set_state(&mut self, state: State) -> (event: Option<Event>)
        ensures
            final(self).flow_state == next_state(old(self).flow_state, state),
            final(self).sample_rate == old(self).sample_rate,
            final(self).sample_counter == old(self).sample_counter,
            final(self).tempo == old(self).tempo,
            final(self).seekable == old(self).seekable,
            event == state_event(old(self).flow_state, old(self).stop_reported, state),
            final(self).stop_reported == (old(self).stop_reported || event == Some(
                Event::State(State::Stopped),
            )),
            old(self).consistent() ==> final(self).consistent(),
    {
        if self.flow_state == State::Stopped || self.flow_state == state {
            return None;
        }
        self.flow_state = state;
        if state == State::Stopped {
            if self.stop_reported {
                return None;
            }
            self.stop_reported = true;
        }
        Some(Event::State(state))
    }

    /// Takes an event of the output and hands on the events that the
    /// playback reports for it. The end of the stream stops the playback and
    /// is first reported as the state `Stopped`, unless that has been reported
    /// before; every event of the output is forwarded.
    pub fn forward(&mut self, event: output::Event) -> (events: Vec<Event>)
        ensures
            events@ == spec_forward(event, old(self).stop_reported),
            final(self).flow_state == if event is End {
                State::Stopped
            } else {
                old(self).flow_state
            },
            final(self).stop_reported == (old(self).stop_reported || event is End),
            final(self).sample_rate == old(self).sample_rate,
            final(self).sample_counter == old(self).sample_counter,
            final(self).tempo == old(self).tempo,
            final(self).seekable == old(self).seekable,
            old(self).consistent() ==> final(self).consistent(),
    {
        let mut events: Vec<Event> = Vec::new();
        let ghost e = event;
        match event {
            output::Event::End => {
                if !self.stop_reported {
                    events.push(Event::State(State::Stopped));
                }
                events.push(Event::Output(output::Event::End));
                self.flow_state = State::Stopped;
                self.stop_reported = true;
            },
            other => {
                events.push(Event::Output(other));
            },
        }
        proof {
            assert(events@ =~= spec_forward(e, old(self).stop_reported));
        }
        events
    }

    /// The tempo ratio as float bits; 1.0 where the tempo cannot be changed.
    pub fn tempo(&self) -> (bits: u64)
        ensures
            bits == match self.tempo {
                Some(t) => t,
                None => UNIT_TEMPO,
            },
    {
        match self.tempo {
            Some(t) => t,
            None => UNIT_TEMPO,
        }
    }

    /// Sets the tempo ratio, given as float bits, and reports it. Nothing
    /// happens where the pipeline has no tempo stage or the ratio is not above
    /// zero.
    pub fn set_tempo(&mut self, tempo: u64) -> (event: Option<Event>)
        ensures
            final(self).sample_rate == old(self).sample_rate,
            final(self).flow_state == old(self).flow_state,
            final(self).sample_counter == old(self).sample_counter,
            final(self).seekable == old(self).seekable,
            final(self).stop_reported == old(self).stop_reported,
            is_positive_tempo(tempo) && old(self).tempo is Some ==> final(self).tempo == Some(
                tempo,
            ) && event == Some(Event::Tempo(tempo)),
            !(is_positive_tempo(tempo) && old(self).tempo is Some) ==> final(self).tempo == old(self).tempo && event is None,
    {
        if 0 < tempo && tempo <= 0x7FF0_0000_0000_0000 && self.tempo.is_some() {
            self.tempo = Some(tempo);
            Some(Event::Tempo(tempo))
        } else {
            None
        }
    }
}

/// The event that a request for a state brings: none where the state stays
/// as it is, which is so for every request to a stopped playback; else the new
/// state, `Stopped` only where it has not been reported before.
pub open spec fn state_event(current: State, reported: bool, wanted: State) -> Option<Event> {
    if next_state(current, wanted) == current || (wanted == State::Stopped && reported) {
        None
    } else {
        Some(Event::State(wanted))
    }
}

/// The events that a playback hands on for an event of its output: the end of
/// the stream is first reported as the state `Stopped`, unless that has been
/// reported before; every event is forwarded.
pub open spec fn spec_forward(event: output::Event, reported: bool) -> Seq<Event> {
    if event is End && !reported {
        seq![Event::State(State::Stopped), Event::Output(event)]
    } else {
        seq![Event::Output(event)]
    }
}

/// Once `Stopped` has been reported, neither a request for a state nor an
/// event of the output reports it again.
pub proof fn lemma_stopped_reported_once(current: State, wanted: State, event: output::Event)
    ensures
        state_event(current, true, wanted) != Some(Event::State(State::Stopped)),
        state_event(State::Stopped, false, wanted) is None,
        !spec_forward(event, true).contains(Event::State(State::Stopped)),
{
    let events = spec_forward(event, true);
    assert(events.len() == 1);
    assert forall|i: int| 0 <= i < events.len() implies events[i] != Event::State(
        State::Stopped,
    ) by {}
}

/// What the valve answers in a state to what its source has next, and the
/// state that it leaves: while paused it blocks and once stopped it ends,
/// whatever the source has; while playing a frame passes, and the end of the
/// source stops the playback.
pub open spec fn spec_flow<T>(state: State, upcoming: Option<T>) -> (Flow<T>, State) {
    match state {
        State::Paused => (Flow::Blocked, State::Paused),
        State::Stopped => (Flow::Ended, State::Stopped),
        State::Playing => match upcoming {
            Some(frame) => (Flow::Frame(frame), State::Playing),
            None => (Flow::Ended, State::Stopped),
        },
    }
}

/// A paused playback lets no frame through, whatever its source has ready.
pub proof fn lemma_paused_blocks<T>(upcoming: Option<T>)
    ensures
        spec_flow(State::Paused, upcoming) == (Flow::<T>::Blocked, State::Paused),
{
}

/// A stopped playback ends its sequence, whatever its source has ready, and
/// so does one whose stage has been taken down, which leaves it stopped, and
/// one that was asked to stop, in whatever state it was.
pub proof fn lemma_stopped_ends<T>(before: State, upcoming: Option<T>)
    ensures
        spec_flow(State::Stopped, upcoming) == (Flow::<T>::Ended, State::Stopped),
        spec_flow(next_state(before, State::Stopped), upcoming).0 == Flow::<T>::Ended,
{
}

/// What the valve lets through.
pub enum Flow<T> {
    /// The playback is paused: wait for a change of state and ask again.
    Blocked,
    /// The sequence has ended.
    Ended,
    /// The next frame.
    Frame(T),
}

/// The valve of a pipeline: lets frames pass while the playback plays.
pub struct FlowControl<S> {
    pub input: S,
}

impl<S: Source> FlowControl<S> {
    /// Puts a source behind the valve.
    pub fn flow_control(input: S) -> (f: FlowControl<S>)
        ensures
            f.input == input,
    {
        FlowControl { input }
    }

    pub fn sample_rate(&self) -> (r: u32)
        requires
            self.input.wf(),
        ensures
            r == self.input.rate(),
    {
        self.input.sample_rate()
    }

    /// Asks the valve for the next frame under the playback's state. While
    /// paused the valve blocks and once stopped it ends, the source untouched
    /// in both cases. While playing the source's next frame passes; at the end
    /// of the source the state becomes `Stopped`.
    pub fn next(&mut self, state: &mut State) -> (r: Flow<S::Item>)
        requires
            old(self).input.wf(),
        ensures
            final(self).input.wf(),
            final(self).input.rate() == old(self).input.rate(),
            (r, *final(state)) == spec_flow(*old(state), old(self).input.upcoming(0)),
            *old(state) != State::Playing ==> final(self).input == old(self).input,
            *old(state) == State::Playing ==> forall|n: nat| #[trigger]
                final(self).input.upcoming(n) == old(self).input.upcoming(n + 1),
    {
        match *state {
            State::Paused => Flow::Blocked,
            State::Stopped => Flow::Ended,
            State::Playing => {
                match self.input.next() {
                    Some(frame) => Flow::Frame(frame),
                    None => {
                        *state = State::Stopped;
                        Flow::Ended
                    },
                }
            },
        }
    }

    /// Takes the valve down: the state becomes `Stopped`, so that a reader
    /// that waits on it ends. Whoever waits has to be woken afterwards.
    pub fn release(self, state: &mut State) -> (input: S)
        ensures
            *final(state) == State::Stopped,
            input == self.input,
    {
        *state = State::Stopped;
        self.input
    }
}

/// The counter of a pipeline: counts the frames that pass.
pub struct SampleCounter<S> {
    pub input: S,
}

impl<S: Source> SampleCounter<S> {
    /// Puts a counter behind a source.
    pub fn count_samples(input: S) -> (c: SampleCounter<S>)
        ensures
            c.input == input,
    {
        SampleCounter { input }
    }

    pub fn sample_rate(&self) -> (r: u32)
        requires
            self.input.wf(),
        ensures
            r == self.input.rate(),
    {
        self.input.sample_rate()
    }

    /// Counts what the source yielded: one more where it is a frame; the end
    /// does not count.
    pub fn counted(pulled: &Option<S::Item>, counter: &mut u64)
        requires
            *old(counter) < u64::MAX,
        ensures
            *final(counter) == if pulled is Some {
                (*old(counter) + 1) as u64
            } else {
                *old(counter)
            },
    {
        if pulled.is_some() {
            *counter = *counter + 1;
        }
    }

    /// Hands the source's next result on and counts it.
    pub fn next(&mut self, counter: &mut u64) -> (r: Option<S::Item>)
        requires
            old(self).input.wf(),
            *old(counter) < u64::MAX,
        ensures
            final(self).input.wf(),
            final(self).input.rate() == old(self).input.rate(),
            r == old(self).input.upcoming(0),
            forall|n: nat| #[trigger]
                final(self).input.upcoming(n) == old(self).input.upcoming(n + 1),
            *final(counter) == if r is Some {
                (*old(counter) + 1) as u64
            } else {
                *old(counter)
            },
    {
        let n = self.input.next();
        Self::counted(&n, counter);
        n
    }
}

} // verus!
