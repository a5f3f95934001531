use music_player::library::fs::playlist::{
    accepts, entries, info_line, is_entry, len, unknown_info_line,
};
use music_player::library::fs::{
    actions, credit, credit_name, indexing, needs_init, wanted_version, Action, Change, Credit,
    Error, Indexing, Which,
};

fn chars(s: &str) -> Vec<char> {
    s.chars().collect()
}

#[test]
fn changes_and_what_the_index_does() {
    assert_eq!(vec![Action::Add(Which::Path)], actions(Change::Create));
    assert_eq!(vec![Action::Add(Which::Path)], actions(Change::Write));
    assert_eq!(vec![Action::Add(Which::Path), Action::Clean(Which::Path)], actions(Change::Chmod));
    assert_eq!(vec![Action::Clean(Which::Path)], actions(Change::Remove));
    assert_eq!(
        vec![Action::Clean(Which::Path), Action::Add(Which::Destination)],
        actions(Change::Rename)
    );
    assert!(actions(Change::NoticeWrite).is_empty());
    assert!(actions(Change::NoticeRemove).is_empty());
    assert!(actions(Change::Rescan).is_empty());
    assert!(actions(Change::Error).is_empty());
}

#[test]
fn what_becomes_of_a_file() {
    assert_eq!(Indexing::UpToDate, indexing(true, Ok(Some(5))));
    assert_eq!(Indexing::UpToDate, indexing(true, Err(music_player::format::Error::Unsupported)));
    assert_eq!(Indexing::NotAudio, indexing(false, Err(music_player::format::Error::Unsupported)));
    assert_eq!(Indexing::UnknownLength, indexing(false, Ok(None)));
    assert_eq!(Indexing::Upsert, indexing(false, Ok(Some(0))));
    assert_eq!(
        Indexing::Failed(music_player::format::Error::Wave(music_player::format::wave::Error::FormatError)),
        indexing(false, Err(music_player::format::Error::Wave(music_player::format::wave::Error::FormatError)))
    );
}

#[test]
fn parts_of_artists() {
    assert_eq!(Some(Credit::Artist), credit(None));
    assert_eq!(Some(Credit::AlbumArtist), credit(Some(&chars("album"))));
    assert_eq!(Some(Credit::Remixer), credit(Some(&chars("remixer"))));
    assert_eq!(None, credit(Some(&chars("composer"))));
    assert_eq!(None, credit(Some(&chars(""))));
    assert_eq!(None, credit_name(Credit::Artist));
    assert_eq!(Some("album"), credit_name(Credit::AlbumArtist));
    assert_eq!(Some("remixer"), credit_name(Credit::Remixer));
}

#[test]
fn versions_of_the_index() {
    assert_eq!(5, wanted_version(5));
    assert_eq!(0, wanted_version(0xffff_ffff));
    assert_eq!(1, wanted_version(0x1_0000_0000));
    assert_eq!((u64::MAX % 0xffff_ffff) as i64, wanted_version(u64::MAX));
    assert!(needs_init(0, 77));
    assert!(!needs_init(77, 77));
    assert_eq!("Filesystem library error", Error::NonSeek.description());
}

#[test]
fn lines_of_a_playlist() {
    assert!(is_entry(&chars("01 - a.flac")));
    assert!(is_entry(&chars(" #not a directive")));
    assert!(!is_entry(&chars("")));
    assert!(!is_entry(&chars("#EXTM3U")));
    assert!(!is_entry(&chars("#EXTINF:30,The B-Trees - Lucy in the Cloud with Sine Waves")));
    assert_eq!(0, len(&vec![]));
}

#[test]
fn playlist_read() {
    let lines: Vec<Vec<char>> = [
        "#EXTM3U",
        "#EXTINF:30,The B-Trees - Lucy in the Cloud with Sine Waves",
        "01 - The B-Trees - Lucy in the Cloud with Sine Waves.flac",
        "",
        "#EXTINF:30,Michael FLACson - One or Zero",
        "02 - Michael FLACson - One or Zero.flac",
        "#EXTINF:30,DJ Testo Ft. Curry RAII Yepsend - call() me Maybe<T>",
        "03 - DJ Testo Ft. Curry RAII Yepsend - call() me Maybe<T>.flac",
    ]
    .iter()
    .map(|l| chars(l))
    .collect();
    assert_eq!(3, len(&lines));
    assert_eq!(3, entries(&lines).len());
    assert_eq!(vec![2, 5, 7], entries(&lines));
}

#[test]
fn lines_that_describe_an_entry() {
    assert_eq!(chars("#EXTINF:30,A - B"), info_line(30, &chars("A - B")));
    assert_eq!(chars("#EXTINF:0,"), info_line(0, &chars("")));
    assert_eq!(chars("#EXTINF:12345,x,y"), info_line(12345, &chars("x,y")));
    assert_eq!(chars("#EXTINF:0,"), unknown_info_line());
    assert!(accepts(&chars("fs")));
    assert!(!accepts(&chars("web")));
    assert!(!accepts(&chars("")));
}
