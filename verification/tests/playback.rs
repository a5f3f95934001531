use music_player::audio::dynam::{Audio, Layout, SampleKind, Seek, Source as Shape};
use music_player::audio::{Duration, FromIter, SeekError, Seekable, Source};
use music_player::format::wave::{decode, Decoder};
use music_player::player::output;
use music_player::player::playback::{
    Event, Flow, FlowControl, Playback, SampleCounter, Stage, State, UNIT_TEMPO, WINDOW_SIZE,
};
use music_player::stream::Cursor;

fn wave(frames: u32) -> Decoder {
    let mut bytes = b"RIFF\0\0\0\0WAVEfmt ".to_vec();
    bytes.extend(16u32.to_le_bytes());
    bytes.extend(1u16.to_le_bytes());
    bytes.extend(2u16.to_le_bytes());
    bytes.extend(44100u32.to_le_bytes());
    bytes.extend((44100u32 * 4).to_le_bytes());
    bytes.extend(4u16.to_le_bytes());
    bytes.extend(16u16.to_le_bytes());
    bytes.extend(b"data");
    bytes.extend((frames * 4).to_le_bytes());
    for i in 0..frames {
        bytes.extend((i as i16).to_le_bytes());
        bytes.extend((-(i as i16)).to_le_bytes());
    }
    decode(Cursor::new(bytes)).unwrap()
}

fn seekable(frames: u32) -> Playback<Decoder> {
    let decoder = wave(frames);
    Playback::new(decoder.audio(), Some(decoder))
}

fn plain() -> Playback<Decoder> {
    let layout = Layout { stereo: true, kind: SampleKind::I16 };
    Playback::new(Audio::Source(Shape { layout, rate: 48000 }), None)
}

#[test]
fn a_seekable_playback_starts_paused_at_unit_tempo() {
    let p = seekable(100);
    assert_eq!(State::Paused, p.state());
    assert_eq!(44100, p.sample_rate);
    assert_eq!(1.0f64.to_bits(), p.tempo());
    assert_eq!(UNIT_TEMPO, 1.0f64.to_bits());
    assert_eq!(Some(100), p.duration());
    assert_eq!(0, p.position());
    assert_eq!(
        vec![
            Stage::Shared,
            Stage::Stft(1024),
            Stage::AdjustTempo,
            Stage::Inverse,
            Stage::FlowControl,
            Stage::SampleCounter
        ],
        p.stages()
    );
    assert_eq!(1024, WINDOW_SIZE);
}

#[test]
fn a_plain_playback_has_neither_tempo_nor_length() {
    let p = plain();
    assert_eq!(State::Paused, p.state());
    assert_eq!(48000, p.sample_rate);
    assert_eq!(None, p.duration());
    assert_eq!(None, p.duration_time());
    assert_eq!(None, p.tempo);
    assert_eq!(1.0f64.to_bits(), p.tempo());
    assert_eq!(vec![Stage::FlowControl, Stage::SampleCounter], p.stages());
}

#[test]
fn seekable_audio_without_a_handle_plays_as_a_plain_source() {
    let layout = Layout { stereo: false, kind: SampleKind::U8 };
    let p: Playback<Decoder> =
        Playback::new(Audio::Seek(Seek { layout, rate: 8000, length: 9 }), None);
    assert_eq!(8000, p.sample_rate);
    assert_eq!(None, p.tempo);
    assert_eq!(None, p.duration());
}

#[test]
fn state_changes_are_reported_and_stopped_is_final() {
    let mut p = seekable(10);
    assert_eq!(Some(Event::State(State::Playing)), p.set_state(State::Playing));
    assert_eq!(State::Playing, p.state());
    assert_eq!(Some(Event::State(State::Paused)), p.set_state(State::Paused));
    assert_eq!(State::Paused, p.state());
    // The state that the playback is in already is no change.
    assert_eq!(None, p.set_state(State::Paused));
    assert_eq!(Some(Event::State(State::Stopped)), p.set_state(State::Stopped));
    assert_eq!(State::Stopped, p.state());
    assert_eq!(None, p.set_state(State::Playing));
    assert_eq!(State::Stopped, p.state());
    assert_eq!(None, p.set_state(State::Paused));
    assert_eq!(None, p.set_state(State::Stopped));
    assert_eq!(State::Stopped, p.state());
}

#[test]
fn set_position_seeks_and_reports() {
    let mut p = seekable(441000 / 1000);
    assert_eq!(Ok(Event::Position(200)), p.set_position(200));
    assert_eq!(200, p.position());
    assert_eq!(Ok(Event::Position(0)), p.set_position(0));
    assert_eq!(0, p.position());
    let handle = p.seekable.as_mut().unwrap();
    assert_eq!(
        Some(music_player::format::wave::Frame::Stereo(
            music_player::format::wave::Sample::I16(0),
            music_player::format::wave::Sample::I16(0)
        )),
        handle.next()
    );
}

#[test]
fn after_a_seek_to_the_start_the_first_frame_comes_next() {
    let mut decoder = wave(100_000);
    for _ in 0..88200 {
        decoder.next();
    }
    assert_eq!(88200, decoder.current_position());
    let mut p = Playback::new(decoder.audio(), Some(decoder));
    assert_eq!(Ok(Event::Position(0)), p.set_position(0));
    assert_eq!(0, p.position());
    let handle = p.seekable.as_mut().unwrap();
    assert_eq!(
        Some(music_player::format::wave::Frame::Stereo(
            music_player::format::wave::Sample::I16(0),
            music_player::format::wave::Sample::I16(0)
        )),
        handle.next()
    );
    assert_eq!(
        Some(music_player::format::wave::Frame::Stereo(
            music_player::format::wave::Sample::I16(1),
            music_player::format::wave::Sample::I16(-1)
        )),
        handle.next()
    );
}

#[test]
fn set_position_out_of_range_is_handed_back() {
    let mut p = seekable(10);
    assert_eq!(Ok(Event::Position(4)), p.set_position(4));
    assert_eq!(Err(SeekError::OutofRange { pos: 10, size: 10 }), p.set_position(10));
    assert_eq!(4, p.position());
    assert_eq!(State::Paused, p.state());
}

#[test]
fn set_position_without_a_decoder_moves_nothing() {
    let mut p = plain();
    p.sample_counter = 77;
    assert_eq!(Ok(Event::Position(5)), p.set_position(5));
    assert_eq!(77, p.position());
}

#[test]
fn positions_as_times() {
    let mut p = seekable(44100 * 3);
    assert_eq!(Some(Duration { secs: 3, nanos: 0 }), p.duration_time());
    assert_eq!(
        Ok(Event::Position(88200)),
        p.set_position_time(Duration { secs: 2, nanos: 999_999_999 })
    );
    assert_eq!(88200, p.position());
    assert_eq!(Duration { secs: 2, nanos: 0 }, p.position_time());
    assert!(p.set_position_time(Duration { secs: 3, nanos: 0 }).is_err());
}

#[test]
fn tempo_is_set_only_above_zero_and_only_with_a_tempo_stage() {
    let mut p = seekable(10);
    assert_eq!(Some(Event::Tempo(2.0f64.to_bits())), p.set_tempo(2.0f64.to_bits()));
    assert_eq!(2.0f64.to_bits(), p.tempo());
    assert_eq!(None, p.set_tempo(0.0f64.to_bits()));
    assert_eq!(None, p.set_tempo((-0.0f64).to_bits()));
    assert_eq!(None, p.set_tempo((-1.5f64).to_bits()));
    assert_eq!(None, p.set_tempo(f64::NAN.to_bits()));
    assert_eq!(None, p.set_tempo(f64::NEG_INFINITY.to_bits()));
    assert_eq!(2.0f64.to_bits(), p.tempo());
    assert_eq!(Some(Event::Tempo(0.5f64.to_bits())), p.set_tempo(0.5f64.to_bits()));
    let tiny = f64::from_bits(1);
    assert!(tiny > 0.0);
    assert_eq!(Some(Event::Tempo(1)), p.set_tempo(1));
    assert_eq!(
        Some(Event::Tempo(f64::INFINITY.to_bits())),
        p.set_tempo(f64::INFINITY.to_bits())
    );
    let mut q = plain();
    assert_eq!(None, q.set_tempo(2.0f64.to_bits()));
    assert_eq!(1.0f64.to_bits(), q.tempo());
}

#[test]
fn the_end_of_the_output_is_reported_as_stopped_first() {
    let mut p = seekable(10);
    p.set_state(State::Playing);
    assert_eq!(
        vec![Event::Output(output::Event::Volume(0.5f64.to_bits()))],
        p.forward(output::Event::Volume(0.5f64.to_bits()))
    );
    assert_eq!(
        vec![Event::Output(output::Event::Error("gone".to_string()))],
        p.forward(output::Event::Error("gone".to_string()))
    );
    assert_eq!(State::Playing, p.state());
    assert_eq!(
        vec![Event::State(State::Stopped), Event::Output(output::Event::End)],
        p.forward(output::Event::End)
    );
    assert_eq!(State::Stopped, p.state());
}

fn stops(events: &[Event]) -> usize {
    events.iter().filter(|e| **e == Event::State(State::Stopped)).count()
}

#[test]
fn stopped_is_reported_once() {
    // Stopped by hand, then the output ends.
    let mut p = seekable(10);
    p.set_state(State::Playing);
    let mut seen = Vec::new();
    seen.extend(p.set_state(State::Stopped));
    seen.extend(p.set_state(State::Stopped));
    seen.extend(p.forward(output::Event::End));
    seen.extend(p.set_state(State::Playing));
    seen.extend(p.forward(output::Event::End));
    assert_eq!(1, stops(&seen));
    assert_eq!(2, seen.iter().filter(|e| **e == Event::Output(output::Event::End)).count());
    // The source ends, which stops the playback without a report, then the
    // output ends.
    let mut q = plain();
    q.set_state(State::Playing);
    q.flow_state = State::Stopped;
    let mut seen = Vec::new();
    seen.extend(q.set_state(State::Stopped));
    assert_eq!(0, stops(&seen));
    seen.extend(q.forward(output::Event::End));
    seen.extend(q.set_state(State::Stopped));
    assert_eq!(1, stops(&seen));
}

fn is_blocked<T>(flow: &Flow<T>) -> bool {
    matches!(flow, Flow::Blocked)
}

fn is_ended<T>(flow: &Flow<T>) -> bool {
    matches!(flow, Flow::Ended)
}

#[test]
fn paused_blocks_and_leaves_the_source_alone() {
    let mut stage = FlowControl::flow_control(FromIter::source(vec![1u8, 2, 3], 8000));
    let mut state = State::Paused;
    assert!(is_blocked(&stage.next(&mut state)));
    assert!(is_blocked(&stage.next(&mut state)));
    assert_eq!(State::Paused, state);
    assert_eq!(0, stage.input.position);
    state = State::Playing;
    assert!(matches!(stage.next(&mut state), Flow::Frame(1)));
    state = State::Paused;
    assert!(is_blocked(&stage.next(&mut state)));
    state = State::Playing;
    assert!(matches!(stage.next(&mut state), Flow::Frame(2)));
    assert_eq!(8000, stage.sample_rate());
}

#[test]
fn stopped_ends_whatever_the_source_has() {
    let mut stage = FlowControl::flow_control(FromIter::source(vec![1u8, 2, 3], 8000));
    let mut state = State::Stopped;
    assert!(is_ended(&stage.next(&mut state)));
    assert_eq!(State::Stopped, state);
    assert_eq!(0, stage.input.position);
}

#[test]
fn the_end_of_the_source_stops_the_playback() {
    let mut stage = FlowControl::flow_control(FromIter::source(vec![9u8], 8000));
    let mut state = State::Playing;
    assert!(matches!(stage.next(&mut state), Flow::Frame(9)));
    assert_eq!(State::Playing, state);
    assert!(is_ended(&stage.next(&mut state)));
    assert_eq!(State::Stopped, state);
    assert!(is_ended(&stage.next(&mut state)));
}

#[test]
fn taking_the_stage_down_stops_a_paused_playback() {
    let stage = FlowControl::flow_control(FromIter::source(vec![9u8], 8000));
    let mut state = State::Paused;
    let input = stage.release(&mut state);
    assert_eq!(State::Stopped, state);
    assert_eq!(vec![9u8], input.signal);
    let mut again = FlowControl::flow_control(input);
    assert!(is_ended(&again.next(&mut state)));
}

#[test]
fn frames_are_counted_and_the_end_is_not() {
    let mut stage = SampleCounter::count_samples(FromIter::source(vec![5u8, 6], 8000));
    let mut counter = 0u64;
    assert_eq!(Some(5), stage.next(&mut counter));
    assert_eq!(1, counter);
    assert_eq!(Some(6), stage.next(&mut counter));
    assert_eq!(2, counter);
    assert_eq!(None, stage.next(&mut counter));
    assert_eq!(None, stage.next(&mut counter));
    assert_eq!(2, counter);
    assert_eq!(8000, stage.sample_rate());
}

#[test]
fn a_whole_file_plays_to_the_end() {
    let decoder = wave(441000);
    let mut playback: Playback<Decoder> = Playback::new(decoder.audio(), None);
    let mut stage = SampleCounter::count_samples(FlowControlled {
        inner: FlowControl::flow_control(decoder),
        state: State::Paused,
    });
    stage.input.state = State::Playing;
    let mut counter = 0u64;
    let mut frames = 0;
    while stage.next(&mut counter).is_some() {
        frames += 1;
    }
    playback.sample_counter = counter;
    playback.flow_state = stage.input.state;
    assert_eq!(441000, frames);
    assert_eq!(441000, playback.position());
    assert_eq!(State::Stopped, playback.state());
    let mut events = playback.forward(output::Event::End);
    events.extend(playback.set_state(State::Stopped));
    assert_eq!(1, events.iter().filter(|e| **e == Event::State(State::Stopped)).count());
    assert_eq!(1, events.iter().filter(|e| **e == Event::Output(output::Event::End)).count());
    assert_eq!(0, events.iter().filter(|e| matches!(e, Event::Output(output::Event::Error(_)))).count());
}

struct FlowControlled {
    inner: FlowControl<Decoder>,
    state: State,
}

impl Source for FlowControlled {
    type Item = music_player::format::wave::Frame;

    fn sample_rate(&self) -> u32 {
        self.inner.sample_rate()
    }

    fn next(&mut self) -> Option<Self::Item> {
        match self.inner.next(&mut self.state) {
            Flow::Frame(frame) => Some(frame),
            _ => None,
        }
    }
}
