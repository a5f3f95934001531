use music_player::audio::Duration;
use music_player::format::tag::{Content, Frame, FrameId, Tag};
use music_player::format::Metadata;
use music_player::library::track::{
    copy_texts, number, rating_of, split_genres, MetadataTrack, RawTrack,
};
use music_player::library::{Identity, Release, TrackInfo};

fn text(id: FrameId, s: &str) -> Frame {
    Frame { id, content: Content::Text(s.to_string()) }
}

fn track(path: &str, tag: Option<Tag>) -> MetadataTrack {
    MetadataTrack::new(
        path.to_string(),
        Metadata { sample_rate: 44100, num_samples: Some(1_000_000), tag },
    )
    .unwrap()
}

#[test]
fn test_tags() {
    let track = track("/home/user/Music/VA - Unknown.flac", {
        let mut tag = Tag::new();
        tag.push(text(FrameId::Title, "Sandstorm"));
        tag.push(text(FrameId::Artist, "Darude"));
        tag.push(text(FrameId::Genre, "Trance"));
        Some(tag)
    });
    assert_eq!("Sandstorm", track.title());
    assert_eq!(vec!["Darude"], track.artists());
    assert_eq!(vec!["Trance"], track.genres());
}

#[test]
fn test_tag_from_filename() {
    let track = track("/home/user/Music/01 - Darude - Sandstorm.flac", None);
    assert_eq!("Sandstorm", track.title());
    assert_eq!(vec!["Darude"], track.artists());
    assert_eq!(Some(1), track.album_track());
}

#[test]
fn a_name_without_dashes_is_the_title() {
    let track = track("/music/Sandstorm.mp3", None);
    assert_eq!("Sandstorm", track.title());
    assert!(track.artists().is_empty());
    assert_eq!(None, track.album_track());
    assert!(track.genres().is_empty());
    assert!(track.remixers().is_empty());
    assert!(track.album_artists().is_empty());
    assert_eq!(None, track.album_title());
    assert_eq!(None, track.album_disc());
    assert_eq!(None, track.rating());
    assert_eq!(None, track.release());
    assert_eq!(("fs".to_string(), "/music/Sandstorm.mp3".to_string()), track.id());
}

#[test]
fn a_path_without_a_file_name_is_no_track() {
    let meta = || Metadata { sample_rate: 1, num_samples: None, tag: None };
    assert!(MetadataTrack::new("/".to_string(), meta()).is_none());
    assert!(MetadataTrack::new("..".to_string(), meta()).is_none());
    assert!(MetadataTrack::new("a/b.wav".to_string(), meta()).is_some());
}

#[test]
fn the_tag_goes_before_the_file_name() {
    let mut tag = Tag::new();
    tag.push(text(FrameId::Track, "7/12"));
    tag.push(text(FrameId::Disc, "2"));
    tag.push(text(FrameId::Album, "Dark Sine of the Moon"));
    tag.push(text(FrameId::AlbumArtist, "Various Artists"));
    tag.push(text(FrameId::Genre, " Trance, Hard  House ,,x"));
    let track = track("/m/03 - A - B.flac", Some(tag));
    assert_eq!(Some(7), track.album_track());
    assert_eq!(Some(2), track.album_disc());
    assert_eq!(Some("Dark Sine of the Moon".to_string()), track.album_title());
    assert_eq!(vec!["Various Artists"], track.album_artists());
    assert_eq!(vec!["Trance", "Hard  House", "", "x"], track.genres());
    assert_eq!("B", track.title());
    assert_eq!(vec!["A"], track.artists());
}

#[test]
fn genres_are_split_at_commas_and_trimmed() {
    let split = |s: &str| split_genres(&s.chars().collect());
    assert_eq!(vec!["a", "b"], split("a,b"));
    assert_eq!(vec![""], split(""));
    assert_eq!(vec!["a", ""], split("a,"));
    assert_eq!(vec!["Drum & Bass"], split("  Drum & Bass\n"));
}

#[test]
fn numbers_of_discs_and_tracks() {
    assert_eq!(Some(3), number("3"));
    assert_eq!(Some(3), number("3/10"));
    assert_eq!(Some(3), number("+3/x"));
    assert_eq!(None, number("/10"));
    assert_eq!(None, number("three"));
    assert_eq!(None, number("3 /10"));
    assert_eq!(Some(-1), number("4294967295"));
    assert_eq!(None, number("4294967296"));
}

#[test]
fn ratings_from_the_popularimeter() {
    let data = |byte: u8| {
        let mut d = b"rater\0".to_vec();
        d.push(byte);
        d.extend([0, 0, 0, 0]);
        d
    };
    assert_eq!(None, rating_of(&data(0)));
    assert_eq!(Some(1), rating_of(&data(1)));
    assert_eq!(Some(1), rating_of(&data(31)));
    assert_eq!(Some(2), rating_of(&data(32)));
    assert_eq!(Some(2), rating_of(&data(64)));
    assert_eq!(Some(2), rating_of(&data(95)));
    assert_eq!(Some(3), rating_of(&data(96)));
    assert_eq!(Some(3), rating_of(&data(128)));
    assert_eq!(Some(3), rating_of(&data(159)));
    assert_eq!(Some(4), rating_of(&data(160)));
    assert_eq!(Some(4), rating_of(&data(196)));
    assert_eq!(Some(4), rating_of(&data(223)));
    assert_eq!(Some(5), rating_of(&data(224)));
    assert_eq!(Some(5), rating_of(&data(255)));
    assert_eq!(None, rating_of(&b"no zero".to_vec()));
    assert_eq!(None, rating_of(&b"ends with zero\0".to_vec()));
    assert_eq!(None, rating_of(&vec![]));
}

#[test]
fn a_rating_written_for_flac_reads_back() {
    for stars in 1..=5u8 {
        let comment: Vec<char> = format!("rating={}", stars).chars().collect();
        let frame = music_player::format::flac::translate_comment(&comment).unwrap();
        let mut tag = Tag::new();
        tag.push(frame);
        assert_eq!(Some(stars), track("/m/x.flac", Some(tag)).rating());
    }
}

#[test]
fn the_most_precise_release_wins() {
    let mut tag = Tag::new();
    tag.push(text(FrameId::ReleaseTime, "1984"));
    tag.push(text(FrameId::ReleaseTime, "soon"));
    tag.push(text(FrameId::ReleaseTime, "1985-11"));
    tag.push(text(FrameId::ReleaseTime, "1986-12"));
    tag.push(Frame { id: FrameId::ReleaseTime, content: Content::Unknown(vec![]) });
    assert_eq!(Some(Release::Month { year: 1985, month: 11 }), track("/m/x.flac", Some(tag)).release());
}

#[test]
fn duration_from_the_metadata() {
    // 1_000_000 = 22 * 44100 + 29800, and 29800 / 44100 s = 675_736_961 ns.
    assert_eq!(
        Duration { secs: 22, nanos: 675_736_961 },
        track("/m/x.flac", None).duration()
    );
}

#[test]
fn raw_tracks_hand_out_what_was_stored() {
    let raw = RawTrack {
        path: "/m/a.flac".to_string(),
        modified_at: 1337,
        duration: Duration { secs: 42, nanos: 0 },
        title: "Dummy".to_string(),
        artists: vec!["A".to_string()],
        remixers: vec!["R".to_string()],
        genres: vec![],
        album_title: Some("T".to_string()),
        album_artists: vec![],
        album_disc: Some(1),
        album_track: None,
        rating: Some(9),
        release: Some(Release::Year { year: 2000 }),
    };
    assert_eq!("Dummy", raw.title());
    assert_eq!(vec!["A"], raw.artists());
    assert_eq!(vec!["R"], raw.remixers());
    assert_eq!(Some("T".to_string()), raw.album_title());
    assert_eq!(Some(1), raw.album_disc());
    assert_eq!(None, raw.album_track());
    assert_eq!(None, raw.rating());
    assert_eq!(Some(Release::Year { year: 2000 }), raw.release());
    assert_eq!(Some(1337), raw.modified_at());
    assert_eq!(Duration { secs: 42, nanos: 0 }, raw.duration());
    assert_eq!(("fs".to_string(), "/m/a.flac".to_string()), raw.id());
}

#[test]
fn a_track_with_a_given_stem() {
    let meta = || Metadata { sample_rate: 8000, num_samples: None, tag: None };
    let track =
        MetadataTrack::with_stem("/m/a - b.wav".to_string(), Some("a - b".to_string()), meta())
            .unwrap();
    assert_eq!("/m/a - b.wav", track.path);
    assert_eq!("a - b", track.stem);
    assert_eq!(8000, track.meta.sample_rate);
    // A name with one dash only holds no title of its own.
    assert_eq!("a - b", track.title());
    assert!(MetadataTrack::with_stem("/".to_string(), None, meta()).is_none());
}

#[test]
fn the_trait_hands_out_what_the_track_tells() {
    let mut tag = Tag::new();
    tag.push(text(FrameId::Title, "Sandstorm"));
    tag.push(text(FrameId::ReleaseTime, "1999-11"));
    let track = track("/home/user/Music/07 - Darude - Other.flac", Some(tag));
    let info: &dyn TrackInfo = &track;
    assert_eq!("Sandstorm", info.title());
    assert_eq!(vec!["Darude"], info.artists());
    assert_eq!(Some(7), info.album_track());
    assert_eq!(Some(Release::Month { year: 1999, month: 11 }), info.release());
    assert_eq!(None, info.rating());
    assert!(info.remixers().is_empty());
}

#[test]
fn texts_are_copied_one_for_one() {
    let texts = vec!["a".to_string(), "".to_string(), "b c".to_string()];
    assert_eq!(texts, copy_texts(&texts));
    assert!(copy_texts(&vec![]).is_empty());
}
