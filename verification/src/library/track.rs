//! Tracks of the file system: what a file's tag and its name tell about it.

use vstd::prelude::*;
use crate::audio::{duration_of, spec_duration_of, Duration};
use crate::format::tag::{spec_find, spec_text, spec_texts, Content, FrameId};
use crate::format::Metadata;
use crate::library::release::{spec_from_captures, Release, DATE_BE, DATE_LE};
use crate::library::{Identity, TrackInfo};
use crate::pattern::{
    captures, chars_of, group, index_of, parse_u32, regex_captures, spec_group, spec_index_of,
    spec_parse_u32, spec_trim, string_of, trim,
};

verus! {

/// The title in a file name: what follows the last ` - `.
pub const TITLE_STEM: &'static str = r"^(?:.* - .*)* - (.+)$";

/// The artist in a file name: what stands between the last two ` - `.
pub const ARTIST_STEM: &'static str = r"^(?:.* - )(.+) - (:?.+)$";

/// The track number in a file name: the digits at its start, without leading
/// zeros.
pub const TRACK_STEM: &'static str = r"^0*([1-9]\d*)";

/// `std::path::Path::file_stem`, with what is no Unicode replaced as
/// `OsStr::to_string_lossy` does: the name of the file without its last
/// extension, if the path names a file. What counts as a file name depends on
/// the platform, so nothing is claimed of the result.
#[verifier::external_body]
fn file_stem(path: &str) -> (r: Option<String>) {
    std::path::Path::new(path).file_stem().map(|stem| stem.to_string_lossy().into_owned())
}

/// The texts as sequences of characters.
pub open spec fn texts_view(texts: Seq<String>) -> Seq<Seq<char>> {
    texts.map_values(|text: String| text@)
}

/// The first capture group of a pattern in a text.
pub open spec fn spec_first_group(pattern: Seq<char>, text: Seq<char>) -> Option<Seq<char>> {
    match regex_captures(pattern, text) {
        Some(groups) => spec_group(groups, 1),
        None => None,
    }
}

/// Matches a pattern on a text and hands out its first capture group.
pub fn first_group(pattern: &str, text: &str) -> (r: Option<Vec<char>>)
    ensures
        match r {
            Some(found) => spec_first_group(pattern@, text@) == Some(found@),
            None => spec_first_group(pattern@, text@) is None,
        },
{
    match captures(pattern, text) {
        Some(groups) => match group(&groups, 1) {
            Some(found) => {
                let mut copy: Vec<char> = Vec::new();
                let mut i: usize = 0;
                while i < found.len()
                    invariant
                        i <= found@.len(),
                        copy@ == found@.subrange(0, i as int),
                    decreases found@.len() - i,
                {
                    copy.push(found[i]);
                    i += 1;
                    assert(copy@ =~= found@.subrange(0, i as int));
                }
                assert(copy@ =~= found@);
                Some(copy)
            },
            None => None,
        },
        None => None,
    }
}

/// The parts of a text between its commas.
pub open spec fn spec_split(text: Seq<char>) -> Seq<Seq<char>>
    decreases text.len(),
{
    let comma = spec_index_of(text, ',');
    if comma >= text.len() || comma < 0 {
        seq![text]
    } else {
        seq![text.take(comma)] + spec_split(text.skip(comma + 1))
    }
}

/// The genres that the text of a genre frame names: its parts between
/// commas, each without the white space around it.
pub open spec fn spec_genres(text: Seq<char>) -> Seq<Seq<char>> {
    trimmed(spec_split(text))
}

/// The texts, each without the white space around it.
pub open spec fn trimmed(parts: Seq<Seq<char>>) -> Seq<Seq<char>> {
    parts.map_values(|part: Seq<char>| spec_trim(part))
}

/// Splits the text of a genre frame into genres.
pub fn split_genres(text: &Vec<char>) -> (r: Vec<String>)
    ensures
        texts_view(r@) == spec_genres(text@),
{
    let mut out: Vec<String> = Vec::new();
    let mut from: usize = 0;
    let ghost mut done: Seq<Seq<char>> = Seq::empty();
    assert(text@.skip(0) =~= text@);
    loop
        invariant
            from <= text@.len(),
            texts_view(out@) == trimmed(done),
            done + spec_split(text@.skip(from as int)) == spec_split(text@),
        decreases text@.len() - from,
    {
        let rest = vstd::slice::slice_subrange(text.as_slice(), from, text.len());
        assert(rest@ =~= text@.skip(from as int));
        let comma = index_of(rest, ',');
        let part = trim(vstd::slice::slice_subrange(rest, 0, comma));
        let ghost before = out@;
        let ghost done_before = done;
        out.push(string_of(&part));
        proof {
            assert(rest@.subrange(0, comma as int) =~= rest@.take(comma as int));
            done = done.push(rest@.take(comma as int));
            assert(texts_view(before).len() == before.len());
            assert(trimmed(done_before).len() == done_before.len());
            assert(out@.len() == done.len());
            assert forall|k: int| 0 <= k < out@.len() implies texts_view(out@)[k] == trimmed(
                done,
            )[k] by {
                if k < before.len() {
                    assert(texts_view(before)[k] == trimmed(done_before)[k]);
                    assert(out@[k] == before[k]);
                    assert(done[k] == done_before[k]);
                } else {
                    assert(out@[k]@ == part@);
                    assert(done[k] == rest@.take(comma as int));
                }
            }
            assert(texts_view(out@) =~= trimmed(done));
        }
        if comma >= rest.len() {
            proof {
                assert(rest@.take(comma as int) =~= rest@);
                assert(spec_split(rest@) == seq![rest@]);
                assert(done =~= done_before + seq![rest@]);
                assert(done == spec_split(text@));
            }
            return out;
        }
        proof {
            assert(rest@.skip(comma + 1) =~= text@.skip(from + comma + 1));
            assert(done + spec_split(text@.skip(from + comma + 1)) =~= done_before + (seq![
                rest@.take(comma as int),
            ] + spec_split(rest@.skip(comma + 1))));
        }
        from = from + comma + 1;
    }
}

/// The number at the start of a text of the form `number` or `number/total`,
/// as a signed number of 32 bits: one beyond its range wraps around.
pub open spec fn spec_number(text: Seq<char>) -> Option<i32> {
    match spec_parse_u32(text.take(spec_index_of(text, '/'))) {
        Some(n) => Some(
            if n <= i32::MAX {
                n as i32
            } else {
                (n - 0x1_0000_0000) as i32
            },
        ),
        None => None,
    }
}

/// Reads the number of a disc or a track from the text of its frame.
pub fn number(text: &str) -> (r: Option<i32>)
    ensures
        r == spec_number(text@),
{
    let chars = chars_of(text);
    let slash = index_of(chars.as_slice(), '/');
    let mut digits: Vec<char> = Vec::new();
    let mut i: usize = 0;
    while i < slash
        invariant
            i <= slash <= chars@.len(),
            digits@ == chars@.take(i as int),
        decreases slash - i,
    {
        digits.push(chars[i]);
        i += 1;
        assert(digits@ =~= chars@.take(i as int));
    }
    match parse_u32(&digits) {
        Some(n) => Some(
            if n <= 0x7fff_ffff {
                n as i32
            } else {
                (n as i64 - 0x1_0000_0000) as i32
            },
        ),
        None => None,
    }
}

/// The number of stars that a popularimeter byte stands for.
pub open spec fn spec_stars(byte: u8) -> Option<u8> {
    if byte == 0 {
        None
    } else if byte <= 31 {
        Some(1u8)
    } else if byte <= 95 {
        Some(2u8)
    } else if byte <= 159 {
        Some(3u8)
    } else if byte <= 223 {
        Some(4u8)
    } else {
        Some(5u8)
    }
}

/// The index of the first zero byte, or the length if there is none.
pub open spec fn first_zero(data: Seq<u8>) -> int
    decreases data.len(),
{
    if data.len() == 0 || data[0] == 0 {
        0
    } else {
        1 + first_zero(data.skip(1))
    }
}

/// The rating in the content of a popularimeter frame: the byte behind the
/// first zero byte, which ends the name of the rater.
pub open spec fn spec_rating(data: Seq<u8>) -> Option<u8> {
    let at = first_zero(data) + 1;
    if at < data.len() {
        spec_stars(data[at])
    } else {
        None
    }
}

/// Reads the rating from the content of a popularimeter frame.
pub fn rating_of(data: &Vec<u8>) -> (r: Option<u8>)
    ensures
        r == spec_rating(data@),
        r matches Some(stars) ==> 1 <= stars <= 5,
{
    let mut i: usize = 0;
    assert(data@.skip(0) =~= data@);
    while i < data.len() && data[i] != 0
        invariant
            i <= data@.len(),
            first_zero(data@) == i + first_zero(data@.skip(i as int)),
        decreases data@.len() - i,
    {
        proof {
            assert(data@.skip(i as int).skip(1) =~= data@.skip(i + 1));
        }
        i += 1;
    }
    if i >= data.len() || i + 1 >= data.len() {
        return None;
    }
    let byte: u8 = data[i + 1];
    if byte == 0 {
        None
    } else if byte <= 31 {
        Some(1)
    } else if byte <= 95 {
        Some(2)
    } else if byte <= 159 {
        Some(3)
    } else if byte <= 223 {
        Some(4)
    } else {
        Some(5)
    }
}

/// The release that a text gives, if it gives one.
pub open spec fn spec_release_of(text: Seq<char>) -> Option<Release> {
    match spec_from_captures(regex_captures(DATE_BE@, text), regex_captures(DATE_LE@, text)) {
        Ok(release) => Some(release),
        Err(_) => None,
    }
}

/// The most precise of the releases that texts give, the earlier text winning
/// a tie.
pub open spec fn spec_best_release(texts: Seq<Seq<char>>) -> Option<Release>
    decreases texts.len(),
{
    if texts.len() == 0 {
        None
    } else {
        let before = spec_best_release(texts.drop_last());
        match (before, spec_release_of(texts.last())) {
            (Some(a), Some(b)) => Some(
                if crate::library::release::precision(b) > crate::library::release::precision(a) {
                    b
                } else {
                    a
                },
            ),
            (Some(a), None) => Some(a),
            (None, found) => found,
        }
    }
}

/// A copy of a list of texts.
pub fn copy_texts(texts: &Vec<String>) -> (r: Vec<String>)
    ensures
        r@ == texts@,
{
    let mut out: Vec<String> = Vec::new();
    let mut i: usize = 0;
    while i < texts.len()
        invariant
            i <= texts@.len(),
            out@ == texts@.subrange(0, i as int),
        decreases texts@.len() - i,
    {
        out.push(texts[i].clone());
        i += 1;
        assert(out@ =~= texts@.subrange(0, i as int));
    }
    assert(texts@.subrange(0, texts@.len() as int) =~= texts@);
    out
}

/// A track as the index stores it.
pub struct RawTrack {
    pub path: String,
    /// The time of the last modification, in seconds since 1970.
    pub modified_at: u64,
    pub duration: Duration,
    pub title: String,
    pub artists: Vec<String>,
    pub remixers: Vec<String>,
    pub genres: Vec<String>,
    pub album_title: Option<String>,
    pub album_artists: Vec<String>,
    pub album_disc: Option<i32>,
    pub album_track: Option<i32>,
    /// The number of stars; only one to five are handed out.
    pub rating: Option<u8>,
    pub release: Option<Release>,
}

impl RawTrack {
    /// The time that the track takes.
    pub fn duration(&self) -> (d: Duration)
        ensures
            d == self.duration,
    {
        self.duration
    }

    /// The time of the last modification, in seconds since 1970.
    pub fn modified_at(&self) -> (t: Option<u64>)
        ensures
            t == Some(self.modified_at),
    {
        Some(self.modified_at)
    }
}

impl Identity for RawTrack {
    /// The library `fs`, and the path of the file.
    fn id(&self) -> (r: (String, String))
        ensures
            r.0@ == "fs"@,
            r.1@ == self.path@,
    {
        (string_of(&chars_of("fs")), self.path.clone())
    }
}

impl TrackInfo for RawTrack {
    fn title(&self) -> (r: String)
        ensures
            r@ == self.title@,
    {
        self.title.clone()
    }

    fn artists(&self) -> (r: Vec<String>)
        ensures
            r@ == self.artists@,
    {
        copy_texts(&self.artists)
    }

    fn remixers(&self) -> (r: Vec<String>)
        ensures
            r@ == self.remixers@,
    {
        copy_texts(&self.remixers)
    }

    fn genres(&self) -> (r: Vec<String>)
        ensures
            r@ == self.genres@,
    {
        copy_texts(&self.genres)
    }

    fn album_title(&self) -> (r: Option<String>)
        ensures
            r == self.album_title,
    {
        match &self.album_title {
            Some(title) => Some(title.clone()),
            None => None,
        }
    }

    fn album_artists(&self) -> (r: Vec<String>)
        ensures
            r@ == self.album_artists@,
    {
        copy_texts(&self.album_artists)
    }

    fn album_disc(&self) -> (r: Option<i32>)
        ensures
            r == self.album_disc,
    {
        self.album_disc
    }

    fn album_track(&self) -> (r: Option<i32>)
        ensures
            r == self.album_track,
    {
        self.album_track
    }

    fn rating(&self) -> (r: Option<u8>)
        ensures
            r == match self.rating {
                Some(stars) if 1 <= stars <= 5 => Some(stars),
                _ => None,
            },
    {
        match self.rating {
            Some(stars) => if 1 <= stars && stars <= 5 {
                Some(stars)
            } else {
                None
            },
            None => None,
        }
    }

    fn release(&self) -> (r: Option<Release>)
        ensures
            r == self.release,
    {
        self.release
    }
}

/// A track that is described by its file: by the tag in it and by its name.
pub struct MetadataTrack {
    pub path: String,
    /// The name of the file without its extension.
    pub stem: String,
    pub meta: Metadata,
}

impl MetadataTrack {
    /// The track of a file whose name, without its extension, is `stem`; none
    /// where the path has no such name.
    pub fn with_stem(path: String, stem: Option<String>, meta: Metadata) -> (r: Option<
        MetadataTrack,
    >)
        ensures
            r == match stem {
                Some(name) => Some(MetadataTrack { path, stem: name, meta }),
                None => None,
            },
    {
        match stem {
            Some(name) => Some(MetadataTrack { path, stem: name, meta }),
            None => None,
        }
    }

    /// The track of a file, if the path names a file. The stem is the name of
    /// the file as the platform tells it.
    pub fn new(path: String, meta: Metadata) -> (r: Option<MetadataTrack>)
        ensures
            r matches Some(track) ==> track.path == path && track.meta == meta,
    {
        let stem = file_stem(path.as_str());
        MetadataTrack::with_stem(path, stem, meta)
    }

    /// The frames of the tag, if the file has one.
    pub open spec fn frames(&self) -> Seq<crate::format::tag::Frame> {
        match self.meta.tag {
            Some(tag) => tag.frames@,
            None => Seq::empty(),
        }
    }

    /// The title: that of the tag, else what the file name holds behind its
    /// last ` - `, else the file name.
    pub open spec fn spec_title(&self) -> Seq<char> {
        match spec_text(self.frames(), FrameId::Title) {
            Some(title) => title,
            None => match spec_first_group(TITLE_STEM@, self.stem@) {
                Some(title) => title,
                None => self.stem@,
            },
        }
    }

    /// The artists: the one of the tag, else the one that the file name holds
    /// between its last two ` - `, else none.
    pub open spec fn spec_artists(&self) -> Seq<Seq<char>> {
        match spec_text(self.frames(), FrameId::Artist) {
            Some(artist) => seq![artist],
            None => match spec_first_group(ARTIST_STEM@, self.stem@) {
                Some(artist) => seq![artist],
                None => Seq::empty(),
            },
        }
    }

    /// The genres of the tag.
    pub open spec fn spec_genres(&self) -> Seq<Seq<char>> {
        match spec_text(self.frames(), FrameId::Genre) {
            Some(text) => spec_genres(text),
            None => Seq::empty(),
        }
    }

    /// The track number: that of the tag, else the number at the start of the
    /// file name.
    pub open spec fn spec_album_track(&self) -> Option<i32> {
        let tagged = match spec_text(self.frames(), FrameId::Track) {
            Some(text) => spec_number(text),
            None => None,
        };
        match tagged {
            Some(n) => Some(n),
            None => match spec_first_group(TRACK_STEM@, self.stem@) {
                Some(digits) => match spec_parse_u32(digits) {
                    Some(n) if n <= i32::MAX => Some(n as i32),
                    _ => None,
                },
                None => None,
            },
        }
    }

    /// The rating of the first popularimeter frame.
    pub open spec fn spec_rating(&self) -> Option<u8> {
        let at = spec_find(self.frames(), FrameId::Popularimeter, 0);
        if at < self.frames().len() {
            match self.frames()[at].content {
                Content::Unknown(data) => spec_rating(data@),
                _ => None,
            }
        } else {
            None
        }
    }

    /// The text of the first frame with the id.
    fn tag_text(&self, id: FrameId) -> (r: Option<&String>)
        ensures
            match r {
                Some(text) => spec_text(self.frames(), id) == Some(text@),
                None => spec_text(self.frames(), id) is None,
            },
    {
        match &self.meta.tag {
            Some(tag) => tag.text(id),
            None => None,
        }
    }

    pub fn title(&self) -> (r: String)
        ensures
            r@ == self.spec_title(),
    {
        match self.tag_text(FrameId::Title) {
            Some(title) => title.clone(),
            None => match first_group(TITLE_STEM, self.stem.as_str()) {
                Some(title) => string_of(&title),
                None => self.stem.clone(),
            },
        }
    }

    pub fn artists(&self) -> (r: Vec<String>)
        ensures
            texts_view(r@) == self.spec_artists(),
    {
        let mut out: Vec<String> = Vec::new();
        match self.tag_text(FrameId::Artist) {
            Some(artist) => {
                out.push(artist.clone());
            },
            None => match first_group(ARTIST_STEM, self.stem.as_str()) {
                Some(artist) => {
                    out.push(string_of(&artist));
                },
                None => {},
            },
        }
        proof {
            assert(texts_view(out@) =~= self.spec_artists());
        }
        out
    }

    pub fn remixers(&self) -> (r: Vec<String>)
        ensures
            r@.len() == 0,
    {
        Vec::new()
    }

    pub fn genres(&self) -> (r: Vec<String>)
        ensures
            texts_view(r@) == self.spec_genres(),
    {
        match self.tag_text(FrameId::Genre) {
            Some(text) => split_genres(&chars_of(text.as_str())),
            None => {
                let out: Vec<String> = Vec::new();
                assert(texts_view(out@) =~= Seq::<Seq<char>>::empty());
                out
            },
        }
    }

    pub fn album_title(&self) -> (r: Option<String>)
        ensures
            match r {
                Some(title) => spec_text(self.frames(), FrameId::Album) == Some(title@),
                None => spec_text(self.frames(), FrameId::Album) is None,
            },
    {
        match self.tag_text(FrameId::Album) {
            Some(title) => Some(title.clone()),
            None => None,
        }
    }

    pub fn album_artists(&self) -> (r: Vec<String>)
        ensures
            texts_view(r@) == match spec_text(self.frames(), FrameId::AlbumArtist) {
                Some(artist) => seq![artist],
                None => Seq::empty(),
            },
    {
        let mut out: Vec<String> = Vec::new();
        match self.tag_text(FrameId::AlbumArtist) {
            Some(artist) => {
                out.push(artist.clone());
            },
            None => {},
        }
        proof {
            assert(texts_view(out@) =~= match spec_text(self.frames(), FrameId::AlbumArtist) {
                Some(artist) => seq![artist],
                None => Seq::empty(),
            });
        }
        out
    }

    pub fn album_disc(&self) -> (r: Option<i32>)
        ensures
            r == match spec_text(self.frames(), FrameId::Disc) {
                Some(text) => spec_number(text),
                None => None,
            },
    {
        match self.tag_text(FrameId::Disc) {
            Some(text) => number(text.as_str()),
            None => None,
        }
    }

    pub fn album_track(&self) -> (r: Option<i32>)
        ensures
            r == self.spec_album_track(),
    {
        let tagged = match self.tag_text(FrameId::Track) {
            Some(text) => number(text.as_str()),
            None => None,
        };
        match tagged {
            Some(n) => Some(n),
            None => match first_group(TRACK_STEM, self.stem.as_str()) {
                Some(digits) => match parse_u32(&digits) {
                    Some(n) => if n <= 0x7fff_ffff {
                        Some(n as i32)
                    } else {
                        None
                    },
                    None => None,
                },
                None => None,
            },
        }
    }

    pub fn rating(&self) -> (r: Option<u8>)
        ensures
            r == self.spec_rating(),
            r matches Some(stars) ==> 1 <= stars <= 5,
    {
        match &self.meta.tag {
            Some(tag) => match tag.get(FrameId::Popularimeter) {
                Some(frame) => match &frame.content {
                    Content::Unknown(data) => rating_of(data),
                    _ => None,
                },
                None => None,
            },
            None => None,
        }
    }

    /// The most precise of the release times of the tag.
    pub fn release(&self) -> (r: Option<Release>)
        ensures
            r == spec_best_release(spec_texts(self.frames(), FrameId::ReleaseTime)),
    {
        let tag = match &self.meta.tag {
            Some(tag) => tag,
            None => {
                return None;
            },
        };
        let texts = tag.texts(FrameId::ReleaseTime);
        let ghost all = spec_texts(self.frames(), FrameId::ReleaseTime);
        let mut best: Option<Release> = None;
        let mut i: usize = 0;
        assert(all.take(0) =~= Seq::<Seq<char>>::empty());
        while i < texts.len()
            invariant
                i <= texts@.len(),
                texts@.len() == all.len(),
                forall|k: int| 0 <= k < texts@.len() ==> (#[trigger] texts@[k])@ == all[k],
                best == spec_best_release(all.take(i as int)),
            decreases texts@.len() - i,
        {
            proof {
                assert(all.take(i + 1).drop_last() =~= all.take(i as int));
                assert(all.take(i + 1).last() == all[i as int]);
            }
            let found = match Release::parse(texts[i].as_str()) {
                Ok(release) => Some(release),
                Err(_) => None,
            };
            best = match (best, found) {
                (Some(a), Some(b)) => Some(a.most_precise(b)),
                (Some(a), None) => Some(a),
                (None, found) => found,
            };
            i += 1;
        }
        proof {
            assert(all.take(all.len() as int) =~= all);
        }
        best
    }

    /// The time that the track takes. The file has to say how many frames it
    /// holds.
    pub fn duration(&self) -> (d: Duration)
        requires
            self.meta.num_samples is Some,
            self.meta.sample_rate > 0,
        ensures
            d == spec_duration_of(self.meta.sample_rate, self.meta.num_samples->0),
    {
        match self.meta.num_samples {
            Some(n) => duration_of(self.meta.sample_rate, n),
            None => Duration { secs: 0, nanos: 0 },
        }
    }
}

impl Identity for MetadataTrack {
    /// The library `fs`, and the path of the file.
    fn id(&self) -> (r: (String, String))
        ensures
            r.0@ == "fs"@,
            r.1@ == self.path@,
    {
        (string_of(&chars_of("fs")), self.path.clone())
    }
}

impl TrackInfo for MetadataTrack {
    /// The title of the tag, else that of the file name, else the file name.
    fn title(&self) -> (r: String)
        ensures
            r@ == self.spec_title(),
    {
        MetadataTrack::title(self)
    }

    /// The artist of the tag, else that of the file name, else none.
    fn artists(&self) -> (r: Vec<String>)
        ensures
            texts_view(r@) == self.spec_artists(),
    {
        MetadataTrack::artists(self)
    }

    /// A file names no remixers.
    fn remixers(&self) -> (r: Vec<String>)
        ensures
            r@.len() == 0,
    {
        MetadataTrack::remixers(self)
    }

    /// The genres of the tag.
    fn genres(&self) -> (r: Vec<String>)
        ensures
            texts_view(r@) == self.spec_genres(),
    {
        MetadataTrack::genres(self)
    }

    /// The album of the tag.
    fn album_title(&self) -> (r: Option<String>)
        ensures
            match r {
                Some(title) => spec_text(self.frames(), FrameId::Album) == Some(title@),
                None => spec_text(self.frames(), FrameId::Album) is None,
            },
    {
        MetadataTrack::album_title(self)
    }

    /// The album artist of the tag, if it has one.
    fn album_artists(&self) -> (r: Vec<String>)
        ensures
            texts_view(r@) == match spec_text(self.frames(), FrameId::AlbumArtist) {
                Some(artist) => seq![artist],
                None => Seq::empty(),
            },
    {
        MetadataTrack::album_artists(self)
    }

    /// The number of the disc in the tag.
    fn album_disc(&self) -> (r: Option<i32>)
        ensures
            r == match spec_text(self.frames(), FrameId::Disc) {
                Some(text) => spec_number(text),
                None => None,
            },
    {
        MetadataTrack::album_disc(self)
    }

    /// The track number of the tag, else the number at the start of the file
    /// name.
    fn album_track(&self) -> (r: Option<i32>)
        ensures
            r == self.spec_album_track(),
    {
        MetadataTrack::album_track(self)
    }

    /// The rating of the first popularimeter frame.
    fn rating(&self) -> (r: Option<u8>)
        ensures
            r == self.spec_rating(),
    {
        MetadataTrack::rating(self)
    }

    /// The most precise of the release times of the tag.
    fn release(&self) -> (r: Option<Release>)
        ensures
            r == spec_best_release(spec_texts(self.frames(), FrameId::ReleaseTime)),
    {
        MetadataTrack::release(self)
    }
}

} // verus!
