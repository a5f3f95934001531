use music_player::audio::{FromIter, Source};
use music_player::filter::resample::{AsChannelLayout, Resampler, N1, N2};
use music_player::filter::stft::{FromSource, Inverse};
use music_player::filter::tempo::{PhaseVocoder, Step};

#[test]
fn the_window_moves_by_half_its_size() {
    let mut stft = FromSource::stft(FromIter::source(vec![1, 2, 3, 4, 5, 6], 8000), 4, 0);
    assert_eq!(4, stft.window_size());
    assert_eq!(2, stft.window_overlap());
    assert_eq!(8000, stft.sample_rate());
    assert_eq!(Some(vec![0, 0, 1, 2]), stft.next(0));
    assert_eq!(Some(vec![1, 2, 3, 4]), stft.next(0));
    assert_eq!(Some(vec![3, 4, 5, 6]), stft.next(0));
    assert_eq!(None, stft.next(0));
    assert_eq!(None, stft.next(0));
    assert_eq!(8000, stft.sample_rate());
}

#[test]
fn the_last_window_is_padded_with_silence() {
    let mut stft = FromSource::stft(FromIter::source(vec![1, 2, 3, 4, 5], 8000), 4, -9);
    assert_eq!(Some(vec![-9, -9, 1, 2]), stft.next(-9));
    assert_eq!(Some(vec![1, 2, 3, 4]), stft.next(-9));
    assert_eq!(Some(vec![3, 4, 5, -9]), stft.next(-9));
    assert_eq!(None, stft.next(-9));
}

#[test]
fn an_empty_source_has_no_window() {
    let mut stft = FromSource::stft(FromIter::source(Vec::<i32>::new(), 8000), 8, 0);
    assert_eq!(None, stft.next(0));
}

#[test]
fn the_inverse_pairs_the_halves_of_two_windows() {
    let mut inverse = Inverse::inverse(4, 2, 0);
    assert!(inverse.needs_window());
    assert!(inverse.next().is_none());
    inverse.push_window(vec![10, 11, 12, 13]);
    assert!(!inverse.needs_window());
    // The window of silence ends, the first one begins.
    let mix = inverse.next().unwrap();
    assert_eq!((0, 2, 10, 0), (mix.ending, mix.ending_weight, mix.beginning, mix.beginning_weight));
    let mix = inverse.next().unwrap();
    assert_eq!((0, 3, 11, 1), (mix.ending, mix.ending_weight, mix.beginning, mix.beginning_weight));
    assert!(inverse.next().is_none());
    assert!(inverse.needs_window());
    inverse.push_window(vec![20, 21, 22, 23]);
    let mix = inverse.next().unwrap();
    assert_eq!((12, 2, 20, 0), (mix.ending, mix.ending_weight, mix.beginning, mix.beginning_weight));
    let mix = inverse.next().unwrap();
    assert_eq!((13, 3, 21, 1), (mix.ending, mix.ending_weight, mix.beginning, mix.beginning_weight));
    assert!(inverse.next().is_none());
}

fn squared_window(size: usize) -> Vec<f64> {
    (0..size)
        .map(|n| f64::sin(std::f64::consts::PI / size as f64 * (n as f64 + 0.5)).powi(2))
        .collect()
}

#[test]
fn the_weights_of_a_pair_add_up_to_one() {
    for size in [2usize, 4, 1024] {
        let weights = squared_window(size);
        let mut inverse = Inverse::inverse(size, size / 2, 0u8);
        inverse.push_window(vec![0u8; size]);
        let mut pairs = 0;
        while let Some(mix) = inverse.next() {
            let sum = weights[mix.ending_weight] + weights[mix.beginning_weight];
            assert!(1.0 - 1e-9 <= sum && sum <= 1.0 + 1e-9);
            pairs += 1;
        }
        assert_eq!(size / 2, pairs);
    }
}

fn round_trip(frames: usize, window: usize) -> Vec<f64> {
    let input: Vec<f64> = (0..frames).map(|i| (i as f64 * 0.37).sin()).collect();
    let mut stft = FromSource::stft(FromIter::source(input, 8000), window, 0.0);
    let mut inverse = Inverse::inverse(window, window / 2, 0.0);
    let weights = squared_window(window);
    let mut out = Vec::new();
    loop {
        if inverse.needs_window() {
            match stft.next(0.0) {
                Some(frames) => inverse.push_window(frames),
                None => break,
            }
        }
        let mix = inverse.next().unwrap();
        out.push(
            mix.ending * weights[mix.ending_weight] + mix.beginning * weights[mix.beginning_weight],
        );
    }
    out
}

#[test]
fn the_transform_and_its_inverse_give_the_frames_back() {
    for (frames, window) in [(100usize, 8usize), (64, 8), (1, 2), (1000, 16), (0, 4)] {
        let out = round_trip(frames, window);
        assert!(frames <= out.len() && out.len() < frames + window);
        // The output lags by half a window.
        let lag = window / 2;
        for i in window..frames.saturating_sub(lag) {
            let expected = ((i - lag) as f64 * 0.37).sin();
            assert!((out[i] - expected).abs() < 1e-9);
        }
    }
}

struct Blocks {
    inner: FromSource<FromIter<u32>>,
}

impl Source for Blocks {
    type Item = Vec<u32>;

    fn sample_rate(&self) -> u32 {
        self.inner.sample_rate()
    }

    fn next(&mut self) -> Option<Vec<u32>> {
        self.inner.next(0)
    }
}

fn steps(ratio: f64, consumption: &mut f64) -> Step {
    let next = *consumption + ratio;
    *consumption = next % 1.0;
    Step {
        pull: next.ceil() as usize,
        select: (next / 2.0).floor() as usize,
        drain: next.floor() as usize,
    }
}

fn stretched_frames(frames: u32, window: usize, ratio: f64) -> usize {
    let input = FromIter::source((0..frames).collect(), 44100);
    let mut vocoder = PhaseVocoder::adjust_tempo(Blocks { inner: FromSource::stft(input, window, 0) });
    assert_eq!(44100, vocoder.sample_rate());
    let mut inverse = Inverse::inverse(window, window / 2, 0u32);
    let mut consumption = 0.0;
    let mut out = 0;
    loop {
        if inverse.needs_window() {
            match vocoder.next(steps(ratio, &mut consumption)) {
                Some(block) => inverse.push_window(block),
                None => break,
            }
        }
        inverse.next().unwrap();
        out += 1;
    }
    out
}

#[test]
fn at_double_tempo_half_the_frames_come_out() {
    let out = stretched_frames(441000, 1024, 2.0);
    assert!(220500 - 1024 <= out && out <= 220500 + 1024);
}

#[test]
fn a_higher_tempo_gives_fewer_frames_and_a_lower_one_more() {
    let unit = stretched_frames(10_000, 64, 1.0);
    assert!(10_000 <= unit && unit < 10_000 + 64);
    assert!(stretched_frames(10_000, 64, 1.5) < unit);
    assert!(stretched_frames(10_000, 64, 3.0) < unit);
    assert!(stretched_frames(10_000, 64, 0.5) > unit);
    assert!(stretched_frames(10_000, 64, 0.75) > unit);
}

#[test]
fn one_step_of_the_tempo_filter() {
    let source = FromIter::source(vec!['a', 'b', 'c', 'd', 'e'], 1);
    let mut vocoder = PhaseVocoder::adjust_tempo(source);
    // Takes a and b in, hands b out, lets both go.
    assert_eq!(Some('b'), vocoder.next(Step { pull: 2, select: 1, drain: 2 }));
    assert!(vocoder.accum.is_empty());
    // Takes c in, hands it out and keeps it.
    assert_eq!(Some('c'), vocoder.next(Step { pull: 1, select: 0, drain: 0 }));
    assert_eq!(Some('c'), vocoder.next(Step { pull: 0, select: 0, drain: 0 }));
    assert_eq!(vec!['c'], vocoder.accum.iter().copied().collect::<Vec<_>>());
    // Asks for three and gets two: the third is not there.
    assert_eq!(None, vocoder.next(Step { pull: 3, select: 3, drain: 3 }));
    assert_eq!(vec!['c', 'd', 'e'], vocoder.accum.iter().copied().collect::<Vec<_>>());
    // Lets go no more than it holds.
    assert_eq!(Some('d'), vocoder.next(Step { pull: 1, select: 1, drain: 9 }));
    assert!(vocoder.accum.is_empty());
    assert_eq!(None, vocoder.next(Step { pull: 1, select: 0, drain: 1 }));
}

#[test]
fn the_converter_buffer_lets_whole_frames_leave() {
    let mut buffer: Resampler<i16> = Resampler::new(48000, 44100, 2);
    assert_eq!(48000, buffer.output_rate);
    assert_eq!(44100, buffer.input_rate);
    assert!(buffer.wants_input());
    assert_eq!(None, buffer.next());
    buffer.extend(&vec![1]);
    assert!(buffer.wants_input());
    assert_eq!(None, buffer.next());
    buffer.extend(&vec![2, 3, 4, 5]);
    assert!(!buffer.wants_input());
    assert_eq!(Some(vec![1, 2]), buffer.next());
    assert_eq!(Some(vec![3, 4]), buffer.next());
    assert!(buffer.wants_input());
    assert_eq!(None, buffer.next());
    buffer.extend(&vec![]);
    buffer.extend(&vec![6]);
    assert_eq!(Some(vec![5, 6]), buffer.next());
}

#[test]
fn channel_layouts() {
    assert_eq!(4, N1::channel_layout());
    assert_eq!(3, N2::channel_layout());
}
