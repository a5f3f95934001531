use music_player::audio::dynam::{Audio, Format, Layout, SampleKind, Seek, Source as Shape};
use music_player::audio::{duration_of, Duration, FromIter, SeekError, Source};

#[test]
fn duration_of_whole_and_fractional_seconds() {
    assert_eq!(Duration { secs: 10, nanos: 0 }, duration_of(44100, 441000));
    assert_eq!(Duration { secs: 0, nanos: 500_000_000 }, duration_of(44100, 22050));
    assert_eq!(Duration { secs: 1, nanos: 500_000_000 }, duration_of(44100, 66150));
    assert_eq!(Duration { secs: 0, nanos: 500_000_000 }, duration_of(2, 1));
    assert_eq!(Duration { secs: 7, nanos: 0 }, duration_of(1, 7));
    // One frame of three in a second: the nanoseconds are rounded down.
    assert_eq!(Duration { secs: 0, nanos: 333_333_333 }, duration_of(3, 1));
    assert_eq!(Duration { secs: 0, nanos: 999_999_999 }, duration_of(u32::MAX, u32::MAX as u64 - 1));
}

#[test]
fn duration_of_counts_in_64_bits() {
    let n: u64 = (1 << 32) + 5;
    assert_eq!(Duration { secs: n / 1000, nanos: (n % 1000) as u32 * 1_000_000 }, duration_of(1000, n));
    assert_eq!(Duration { secs: u64::MAX, nanos: 0 }, duration_of(1, u64::MAX));
}

#[test]
fn sample_rate_is_stable_over_next_calls() {
    let mut source = FromIter::source(vec![[1i16, 2], [3, 4], [5, 6]], 48000);
    assert_eq!(48000, source.sample_rate());
    assert_eq!(Some([1, 2]), source.next());
    assert_eq!(48000, source.sample_rate());
    assert_eq!(Some([3, 4]), source.next());
    assert_eq!(Some([5, 6]), source.next());
    assert_eq!(48000, source.sample_rate());
    assert_eq!(None, source.next());
    assert_eq!(None, source.next());
    assert_eq!(48000, source.sample_rate());
}

#[test]
fn sample_kinds() {
    assert_eq!(8, SampleKind::I8.bits());
    assert_eq!(24, SampleKind::U24.bits());
    assert_eq!(32, SampleKind::U24.container_bits());
    assert_eq!(32, SampleKind::I24.container_bits());
    assert_eq!(16, SampleKind::I16.container_bits());
    assert_eq!(64, SampleKind::F64.bits());
    assert_eq!(Format::Float, SampleKind::F32.format());
    assert_eq!(Format::Signed, SampleKind::I64.format());
    assert_eq!(Format::Unsigned, SampleKind::U16.format());
}

#[test]
fn shapes_of_audio() {
    let layout = Layout { stereo: true, kind: SampleKind::I16 };
    assert_eq!(2, layout.num_channels());
    assert_eq!(1, Layout { stereo: false, kind: SampleKind::U8 }.num_channels());
    assert_eq!(16, layout.bits_per_sample());
    assert_eq!(Format::Signed, layout.format());
    let seek = Seek { layout, rate: 44100, length: 441000 };
    let audio = Audio::Seek(seek);
    assert!(audio.is_seek());
    assert_eq!(44100, audio.sample_rate());
    assert_eq!(Some(seek), audio.into_seek());
    let source = Shape { layout, rate: 44100 };
    assert_eq!(source, audio.into_source());
    assert_eq!(source, seek.into_source());
    assert!(!Audio::Source(source).is_seek());
    assert_eq!(None, Audio::Source(source).into_seek());
    assert_eq!(Format::Signed, source.format());
    assert_eq!(44100, source.sample_rate());
    assert_eq!(44100, seek.sample_rate());
}

#[test]
fn seek_error_description() {
    assert_eq!("Seek error", SeekError::OutofRange { pos: 3, size: 2 }.description());
    assert_eq!("Seek error", SeekError::Other("x".to_string()).description());
}
