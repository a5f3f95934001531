use music_player::audio::dynam::{Audio, Layout, SampleKind, Seek, Source};
use music_player::audio::Duration;
use music_player::format::flac;
use music_player::format::mp3;
use music_player::format::tag::{Content, Frame, FrameId, PictureType, Tag};
use music_player::format::{decode_file, detect_format, Decoded, Error, Format, Metadata};

fn chars(s: &str) -> Vec<char> {
    s.chars().collect()
}

#[test]
fn detects_flac_mp3_wave_and_unknown() {
    assert_eq!(Format::Flac, detect_format(b"fLaC\x00\x00", None));
    assert_eq!(Format::Mp3, detect_format(b"ID3\x04\x00", Some(&chars("mp3"))));
    assert_eq!(Format::Mp3, detect_format(b"\x00\x00\xff\xfb\x90", None));
    assert_eq!(Format::Wave, detect_format(b"RIFF\x00\x00\x00\x00WAVEfmt ", None));
    assert_eq!(Format::Unknown, detect_format(b"OggS\x00", None));
    assert_eq!(Format::Unknown, detect_format(b"", Some(&chars("flac"))));
}

#[test]
fn a_tagged_flac_file_is_told_by_its_extension() {
    assert_eq!(Format::Flac, detect_format(b"ID3\x04\x00", Some(&chars("flac"))));
    assert_eq!(Format::Mp3, detect_format(b"ID3\x04\x00", Some(&chars("FLAC"))));
    assert_eq!(Format::Mp3, detect_format(b"ID3\x04\x00", Some(&chars("flacs"))));
    assert_eq!(Format::Mp3, detect_format(b"ID3\x04\x00", None));
}

#[test]
fn only_the_first_512_bytes_count() {
    let mut late = vec![0u8; 512];
    late.extend([0xff, 0xfb]);
    assert_eq!(Format::Unknown, detect_format(&late, None));
    let mut edge = vec![0u8; 510];
    edge.extend([0xff, 0xfb]);
    assert_eq!(Format::Mp3, detect_format(&edge, None));
    // A sync across the border is none.
    let mut across = vec![0u8; 511];
    across.extend([0xff, 0xfb]);
    assert_eq!(Format::Unknown, detect_format(&across, None));
}

#[test]
fn a_sync_in_a_wave_header_makes_it_an_mpeg_file() {
    assert_eq!(Format::Mp3, detect_format(b"RIFF\xff\xff\x00\x00WAVE", None));
}

#[test]
fn magic_of_each_format() {
    assert!(flac::magic(b"fLaC"));
    assert!(!flac::magic(b"fLa"));
    assert!(!flac::magic(b"flac"));
    assert!(mp3::magic(b"ID3"));
    assert!(mp3::magic(b"..\xff\xe0"));
    assert!(!mp3::magic(b"ID"));
    assert!(!mp3::magic(b"\xff\xdf\xff"));
    assert!(!mp3::magic(b"\xff"));
}

#[test]
fn flac_shapes() {
    let stereo16 = Layout { stereo: true, kind: SampleKind::I16 };
    assert_eq!(
        Ok(Audio::Seek(Seek { layout: stereo16, rate: 44100, length: 441000 })),
        flac::audio(441000, 2, 16, 44100)
    );
    assert_eq!(
        Ok(Audio::Source(Source { layout: stereo16, rate: 44100 })),
        flac::audio(0, 2, 16, 44100)
    );
    assert_eq!(
        Ok(Audio::Seek(Seek {
            layout: Layout { stereo: false, kind: SampleKind::I24 },
            rate: 96000,
            length: 1
        })),
        flac::audio(1, 1, 24, 96000)
    );
    assert_eq!(
        Ok(Audio::Source(Source { layout: Layout { stereo: false, kind: SampleKind::I8 }, rate: 1 })),
        flac::audio(0, 1, 8, 1)
    );
}

#[test]
fn flac_shapes_that_are_not_decoded() {
    assert_eq!(
        Err(flac::Error::Unimplemented { known_length: true, num_channels: 6, sample_size: 16 }),
        flac::audio(10, 6, 16, 44100)
    );
    assert_eq!(
        Err(flac::Error::Unimplemented { known_length: false, num_channels: 2, sample_size: 32 }),
        flac::audio(0, 2, 32, 44100)
    );
    assert_eq!("Flac error", flac::Error::ConstructionFailed.description());
    assert_eq!("Flac error", flac::Error::InitFailed(1).description());
    assert_eq!("Flac error", flac::Error::BadState(2).description());
}

#[test]
fn comments_become_frames() {
    let text = |id, s: &str| Some(Frame { id, content: Content::Text(s.to_string()) });
    assert_eq!(text(FrameId::Title, "Lucy"), flac::translate_comment(&chars("TITLE=Lucy")));
    assert_eq!(text(FrameId::Title, "Lucy"), flac::translate_comment(&chars("title =  Lucy \t")));
    assert_eq!(text(FrameId::Artist, "The B-Trees"), flac::translate_comment(&chars("Artist=The B-Trees")));
    assert_eq!(text(FrameId::Album, "a=b"), flac::translate_comment(&chars("album=a=b")));
    assert_eq!(text(FrameId::AlbumArtist, "VA"), flac::translate_comment(&chars("ALBUM_ARTIST=VA")));
    assert_eq!(text(FrameId::AlbumArtist, "VA"), flac::translate_comment(&chars("Album Artist=VA")));
    assert_eq!(text(FrameId::ReleaseTime, "1984"), flac::translate_comment(&chars("DATE=1984")));
    assert_eq!(text(FrameId::Disc, "1"), flac::translate_comment(&chars("DISCNUMBER=1")));
    assert_eq!(text(FrameId::Disc, "2"), flac::translate_comment(&chars("disc=2")));
    assert_eq!(text(FrameId::Genre, "Trance"), flac::translate_comment(&chars("GENRE=Trance")));
    assert_eq!(text(FrameId::Software, "x"), flac::translate_comment(&chars("software=x")));
    assert_eq!(text(FrameId::Track, "3/9"), flac::translate_comment(&chars("TRACKNUMBER=3/9")));
    assert_eq!(text(FrameId::Track, "3"), flac::translate_comment(&chars("track=3")));
    assert_eq!(text(FrameId::Title, ""), flac::translate_comment(&chars("title=")));
}

#[test]
fn comments_that_become_no_frame() {
    assert_eq!(None, flac::translate_comment(&chars("no equals sign")));
    assert_eq!(None, flac::translate_comment(&chars("")));
    assert_eq!(None, flac::translate_comment(&chars("composer=Bach")));
    assert_eq!(None, flac::translate_comment(&chars("=title")));
    assert_eq!(None, flac::translate_comment(&chars("rating=6")));
    assert_eq!(None, flac::translate_comment(&chars("rating=five")));
    assert_eq!(None, flac::translate_comment(&chars("rating=-1")));
}

#[test]
fn a_rating_becomes_a_popularimeter_frame() {
    let frame = flac::translate_comment(&chars("RATING=3")).unwrap();
    assert_eq!(FrameId::Popularimeter, frame.id);
    let mut expected = b"Windows Media Player 9 Series\0_\0\0\0\0".to_vec();
    expected[30] = 128;
    assert_eq!(Content::Unknown(expected), frame.content);
    assert_eq!(Some(0), flac::rating_byte(0));
    assert_eq!(Some(1), flac::rating_byte(1));
    assert_eq!(Some(64), flac::rating_byte(2));
    assert_eq!(Some(128), flac::rating_byte(3));
    assert_eq!(Some(196), flac::rating_byte(4));
    assert_eq!(Some(255), flac::rating_byte(5));
    assert_eq!(None, flac::rating_byte(6));
    assert_eq!(Some(255), flac::stars(&chars("+5")));
    assert_eq!(Some(0), flac::stars(&chars("-0")));
    assert_eq!(None, flac::stars(&chars("-+0")));
    assert_eq!(None, flac::stars(&chars("")));
}

#[test]
fn picture_types() {
    assert_eq!(PictureType::Other, flac::picture_type(0));
    assert_eq!(PictureType::Icon, flac::picture_type(1));
    assert_eq!(PictureType::OtherIcon, flac::picture_type(2));
    assert_eq!(PictureType::CoverFront, flac::picture_type(3));
    assert_eq!(PictureType::BrightFish, flac::picture_type(17));
    assert_eq!(PictureType::PublisherLogo, flac::picture_type(20));
    assert_eq!(PictureType::Other, flac::picture_type(21));
}

#[test]
fn tags_find_the_first_frame() {
    let mut tag = Tag::new();
    assert_eq!(None, tag.get(FrameId::Title));
    tag.push(Frame { id: FrameId::Artist, content: Content::Text("a".to_string()) });
    tag.push(Frame { id: FrameId::Title, content: Content::Unknown(vec![1]) });
    tag.push(Frame { id: FrameId::Title, content: Content::Text("t".to_string()) });
    tag.push(Frame { id: FrameId::ReleaseTime, content: Content::Text("2001".to_string()) });
    tag.push(Frame { id: FrameId::ReleaseTime, content: Content::Text("2001-10".to_string()) });
    assert_eq!(Some(&"a".to_string()), tag.text(FrameId::Artist));
    // The first title frame counts, and it holds no text.
    assert_eq!(None, tag.text(FrameId::Title));
    assert_eq!(Some(&tag.frames[1]), tag.get(FrameId::Title));
    assert_eq!(vec![&"t".to_string()], tag.texts(FrameId::Title));
    assert_eq!(vec![&"2001".to_string(), &"2001-10".to_string()], tag.texts(FrameId::ReleaseTime));
    assert!(tag.texts(FrameId::Genre).is_empty());
}

#[test]
fn metadata_duration() {
    let meta = Metadata { sample_rate: 44100, num_samples: Some(441000), tag: None };
    assert_eq!(Some(Duration { secs: 10, nanos: 0 }), meta.duration());
    let open = Metadata { sample_rate: 44100, num_samples: None, tag: None };
    assert_eq!(None, open.duration());
    assert_eq!("Format error", Error::Unsupported.description());
}

fn wave_file() -> Vec<u8> {
    let mut bytes = b"RIFF\0\0\0\0WAVEfmt ".to_vec();
    bytes.extend(16u32.to_le_bytes());
    bytes.extend(1u16.to_le_bytes());
    bytes.extend(1u16.to_le_bytes());
    bytes.extend(8000u32.to_le_bytes());
    bytes.extend(8000u32.to_le_bytes());
    bytes.extend(1u16.to_le_bytes());
    bytes.extend(8u16.to_le_bytes());
    bytes.extend(b"data");
    bytes.extend(3u32.to_le_bytes());
    bytes.extend([1u8, 2, 3]);
    bytes
}

#[test]
fn a_file_of_unknown_format_is_not_supported() {
    assert!(matches!(decode_file(b"OggS".to_vec(), None), Err(Error::Unsupported)));
    assert!(matches!(decode_file(vec![], Some(&chars("wav"))), Err(Error::Unsupported)));
}

#[test]
fn a_wave_file_is_decoded_and_the_others_are_handed_on() {
    match decode_file(wave_file(), None) {
        Ok(Decoded::Wave(decoder)) => {
            assert_eq!(8000, decoder.info.sample_rate);
            assert_eq!(44, decoder.input.position());
        }
        _ => panic!("no wave decoder"),
    }
    match decode_file(b"fLaC....".to_vec(), None) {
        Ok(Decoded::Flac(stream)) => {
            assert_eq!(0, stream.position());
            assert_eq!(b"fLaC....".to_vec(), stream.data);
        }
        _ => panic!("no flac stream"),
    }
    match decode_file(b"ID3.....".to_vec(), Some(&chars("mp3"))) {
        Ok(Decoded::Mp3(stream)) => assert_eq!(8, stream.len()),
        _ => panic!("no mpeg stream"),
    }
    assert!(matches!(
        decode_file(b"ID3.....".to_vec(), Some(&chars("flac"))),
        Ok(Decoded::Flac(_))
    ));
}

#[test]
fn a_broken_wave_file_gives_the_decoder_error() {
    let mut bytes = wave_file();
    bytes.truncate(30);
    assert!(matches!(
        decode_file(bytes, None),
        Err(Error::Wave(music_player::format::wave::Error::IO(
            music_player::stream::IoError::UnexpectedEof
        )))
    ));
    let no_chunks = b"RIFF\0\0\0\0WAVE".to_vec();
    assert!(matches!(
        decode_file(no_chunks, None),
        Err(Error::Wave(music_player::format::wave::Error::FormatError))
    ));
}
