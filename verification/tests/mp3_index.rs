use music_player::format::mp3::index::{
    find_bitrate, find_stream, Error, FrameIndex, Header, MpegLayer, MpegVersion,
};
use music_player::stream::Cursor;

#[test]
fn find_stream_start() {
    let mut cur = Cursor::new(vec![0, 0, 0, 0, 0, 0, 0, 0, 0, 0, 0xff, 0xe0, 0, 0, 0, 0]);
    find_stream(&mut cur).unwrap();
    assert_eq!(10, cur.position());
}

#[test]
fn find_stream_repeated() {
    let mut cur = Cursor::new(vec![0, 0, 0, 0, 0, 0, 0, 0, 0, 0, 0xff, 0xe0, 0, 0, 0, 0]);
    find_stream(&mut cur).unwrap();
    assert_eq!(10, cur.position());
    find_stream(&mut cur).unwrap();
    assert_eq!(10, cur.position());
    find_stream(&mut cur).unwrap();
    assert_eq!(10, cur.position());
}

#[test]
fn find_stream_missing_sync_leaves_stream_at_end() {
    let mut cur = Cursor::new(vec![0, 0xff, 0x1f, 0xff]);
    assert_eq!(Err(Error::MissingSync), find_stream(&mut cur));
    assert_eq!(4, cur.position());
    let mut beyond = Cursor::new(vec![0xff, 0xe0]);
    beyond.set_position(7);
    assert_eq!(Err(Error::MissingSync), find_stream(&mut beyond));
    assert_eq!(7, beyond.position());
}

#[test]
fn bitrate_table_entries() {
    assert_eq!(Ok(Some(128_000)), find_bitrate(0b1001, MpegVersion::V1, MpegLayer::L3));
    assert_eq!(Ok(Some(448_000)), find_bitrate(0b1110, MpegVersion::V1, MpegLayer::L1));
    assert_eq!(Ok(Some(8_000)), find_bitrate(0b0001, MpegVersion::V2, MpegLayer::L3));
    assert_eq!(Ok(Some(160_000)), find_bitrate(0b1110, MpegVersion::V2, MpegLayer::L2));
    assert_eq!(Ok(Some(144_000)), find_bitrate(0b1001, MpegVersion::V2, MpegLayer::L1));
    assert_eq!(Ok(Some(32_000)), find_bitrate(0b0001, MpegVersion::V25, MpegLayer::L3));
    assert_eq!(Ok(None), find_bitrate(0, MpegVersion::V1, MpegLayer::L1));
    assert_eq!(Ok(None), find_bitrate(15, MpegVersion::V2, MpegLayer::L2));
}

#[test]
fn bitrate_unknown_combination() {
    assert_eq!(
        Err(Error::UnknownBitrate { index: 5, layer: MpegLayer::L3, version: MpegVersion::V25 }),
        find_bitrate(5, MpegVersion::V25, MpegLayer::L3)
    );
    assert_eq!(
        Err(Error::UnknownBitrate { index: 16, layer: MpegLayer::L1, version: MpegVersion::V1 }),
        find_bitrate(16, MpegVersion::V1, MpegLayer::L1)
    );
}

#[test]
fn header_of_a_common_frame() {
    // MPEG 1 layer III, 128 kbit/s, 44.1 kHz, no padding, stereo.
    let h = Header::parse([0xff, 0xfb, 0x90, 0x00]).unwrap();
    assert_eq!(MpegVersion::V1, h.version);
    assert_eq!(MpegLayer::L3, h.layer);
    assert_eq!(128_000, h.bitrate);
    assert_eq!(44_100, h.sample_rate);
    assert!(!h.padded);
    assert_eq!(2, h.channels);
    assert_eq!(417, h.frame_length());
    assert_eq!(1152, h.samples());
    // The same with padding, joint stereo.
    let p = Header::parse([0xff, 0xfb, 0x92, 0x40]).unwrap();
    assert!(p.padded);
    assert_eq!(1, p.channels);
    assert_eq!(418, p.frame_length());
}

#[test]
fn header_of_layer_one() {
    // MPEG 1 layer I, 32 kbit/s, 48 kHz, padded.
    let h = Header::parse([0xff, 0xff, 0x16, 0xc0]).unwrap();
    assert_eq!(MpegLayer::L1, h.layer);
    assert_eq!(32_000, h.bitrate);
    assert_eq!(48_000, h.sample_rate);
    assert_eq!((12 * 32_000 / 48_000 + 4) * 4, h.frame_length());
    assert_eq!(384, h.samples());
}

#[test]
fn header_rejects_reserved_fields() {
    assert_eq!(None, Header::parse([0xff, 0x1b, 0x90, 0x00]));
    assert_eq!(None, Header::parse([0xff, 0xeb, 0x90, 0x00])); // reserved version
    assert_eq!(None, Header::parse([0xff, 0xf9, 0x90, 0x00])); // reserved layer
    assert_eq!(None, Header::parse([0xff, 0xfb, 0xf0, 0x00])); // forbidden bitrate
    assert_eq!(None, Header::parse([0xff, 0xfb, 0x9c, 0x00])); // reserved sample rate
}

fn stream_of(frames: usize, lead: usize) -> Vec<u8> {
    let mut data = vec![0u8; lead];
    for _ in 0..frames {
        let mut frame = vec![0u8; 417];
        frame[0] = 0xff;
        frame[1] = 0xfb;
        frame[2] = 0x90;
        frame[3] = 0x00;
        data.extend(frame);
    }
    data
}

#[test]
fn index_of_three_frames() {
    let mut cur = Cursor::new(stream_of(3, 10));
    let index = FrameIndex::read(&mut cur).unwrap();
    assert_eq!(3, index.frames.len());
    for (i, frame) in index.frames.iter().enumerate() {
        assert_eq!(10 + 417 * i as u64, frame.offset);
        assert_eq!(417, frame.length);
        assert_eq!(576, frame.num_samples);
        assert_eq!(576 * i as u64, frame.sample_offset);
    }
    assert_eq!(3 * 576, index.num_samples());
    assert_eq!(10 + 3 * 417, cur.position());
}

#[test]
fn index_stops_at_other_data() {
    let mut data = stream_of(2, 0);
    data.extend(vec![1u8, 2, 3, 4, 5, 6]);
    let mut cur = Cursor::new(data);
    let index = FrameIndex::read(&mut cur).unwrap();
    assert_eq!(2, index.frames.len());
    assert_eq!(2 * 417 + 4, cur.position());
}

#[test]
fn index_without_frames_is_missing_sync() {
    let mut cur = Cursor::new(vec![0u8; 64]);
    assert!(matches!(FrameIndex::read(&mut cur), Err(Error::MissingSync)));
    // A sync that no header follows.
    let mut cur = Cursor::new(vec![0xff, 0xeb, 0x90, 0x00, 0, 0]);
    assert!(matches!(FrameIndex::read(&mut cur), Err(Error::MissingSync)));
}

#[test]
fn frame_for_sample_bisects() {
    let mut cur = Cursor::new(stream_of(4, 0));
    let index = FrameIndex::read(&mut cur).unwrap();
    assert_eq!(Some(0), index.frame_for_sample(0));
    assert_eq!(Some(0), index.frame_for_sample(575));
    assert_eq!(Some(1), index.frame_for_sample(576));
    assert_eq!(Some(2), index.frame_for_sample(576 * 2 + 1));
    assert_eq!(Some(3), index.frame_for_sample(576 * 4 - 1));
    assert_eq!(None, index.frame_for_sample(576 * 4));
    assert_eq!(None, index.frame_for_sample(576 * 4 + 1));
    assert_eq!(576 * 4, index.num_samples());
}
