//! FLAC files: how they are recognised, which shapes of audio are decoded,
//! and how their comments become the frames of a tag.

use vstd::prelude::*;
use crate::audio::dynam;
use crate::audio::dynam::SampleKind;
use crate::format::tag::{Content, Frame, FrameId, PictureType};
use crate::pattern::{
    index_of, is_text, lowered, parse_u32, spec_index_of, spec_parse_u32, spec_trim, string_of,
    to_lowercase, trim,
};

verus! {

#[derive(Copy, Clone, Debug, PartialEq, Eq, Structural)]
pub enum Error {
    /// The decoder could not be made.
    ConstructionFailed,
    /// The decoder refused the stream; the number is its status.
    InitFailed(u32),
    /// The decoder went into a state from which it does not go on; the number
    /// names the state.
    BadState(u32),
    /// The shape of the audio is known and not decoded.
    Unimplemented { known_length: bool, num_channels: u32, sample_size: u32 },
}

impl Error {
    /// A short name for the kind of failure.
    pub fn description(&self) -> (s: &'static str)
        ensures
            s@ == "Flac error"@,
    {
        "Flac error"
    }
}

/// Whether bytes open a FLAC stream: with `fLaC`.
pub open spec fn spec_magic(header: Seq<u8>) -> bool {
    header.len() >= 4 && header[0] == 0x66 && header[1] == 0x4c && header[2] == 0x61 && header[3]
        == 0x43
}

/// Tells whether bytes open a FLAC stream.
pub fn magic(header: &[u8]) -> (b: bool)
    ensures
        b == spec_magic(header@),
{
    header.len() >= 4 && header[0] == 0x66 && header[1] == 0x4c && header[2] == 0x61 && header[3]
        == 0x43
}

/// The audio that a stream of the given shape decodes to: one or two channels
/// of 8, 16 or 24 signed bits; seekable where the total number of frames is
/// known, that is, not zero.
pub open spec fn spec_audio(
    total_samples: u64,
    num_channels: u32,
    sample_size: u32,
    sample_rate: u32,
) -> Result<dynam::Audio, Error> {
    if (num_channels == 1 || num_channels == 2) && (sample_size == 8 || sample_size == 16
        || sample_size == 24) {
        let layout = dynam::Layout {
            stereo: num_channels == 2,
            kind: if sample_size == 8 {
                SampleKind::I8
            } else if sample_size == 16 {
                SampleKind::I16
            } else {
                SampleKind::I24
            },
        };
        if total_samples != 0 {
            Ok(dynam::Audio::Seek(dynam::Seek { layout, rate: sample_rate, length: total_samples }))
        } else {
            Ok(dynam::Audio::Source(dynam::Source { layout, rate: sample_rate }))
        }
    } else {
        Err(Error::Unimplemented { known_length: total_samples != 0, num_channels, sample_size })
    }
}

/// Decides, from what the stream says of itself, as what it is decoded.
pub fn audio(total_samples: u64, num_channels: u32, sample_size: u32, sample_rate: u32) -> (r:
    Result<dynam::Audio, Error>)
    ensures
        r == spec_audio(total_samples, num_channels, sample_size, sample_rate),
{
    let kind = match sample_size {
        8 => SampleKind::I8,
        16 => SampleKind::I16,
        24 => SampleKind::I24,
        _ => {
            return Err(
                Error::Unimplemented {
                    known_length: total_samples != 0,
                    num_channels,
                    sample_size,
                },
            );
        },
    };
    if num_channels != 1 && num_channels != 2 {
        return Err(
            Error::Unimplemented { known_length: total_samples != 0, num_channels, sample_size },
        );
    }
    let layout = dynam::Layout { stereo: num_channels == 2, kind };
    if total_samples != 0 {
        Ok(dynam::Audio::Seek(dynam::Seek { layout, rate: sample_rate, length: total_samples }))
    } else {
        Ok(dynam::Audio::Source(dynam::Source { layout, rate: sample_rate }))
    }
}

/// The byte that stands for a number of stars in a popularimeter frame.
pub open spec fn spec_rating_byte(stars: int) -> Option<u8> {
    if stars == 0 {
        Some(0u8)
    } else if stars == 1 {
        Some(1u8)
    } else if stars == 2 {
        Some(64u8)
    } else if stars == 3 {
        Some(128u8)
    } else if stars == 4 {
        Some(196u8)
    } else if stars == 5 {
        Some(255u8)
    } else {
        None
    }
}

/// Maps zero to five stars to the byte of a popularimeter frame.
pub fn rating_byte(stars: u32) -> (r: Option<u8>)
    ensures
        r == spec_rating_byte(stars as int),
{
    match stars {
        0 => Some(0),
        1 => Some(1),
        2 => Some(64),
        3 => Some(128),
        4 => Some(196),
        5 => Some(255),
        _ => None,
    }
}

/// The content of a popularimeter frame for a rating byte: the name of the
/// rater, a zero, the byte, and four zero bytes for the count of plays.
pub open spec fn spec_popularimeter(byte: u8) -> Seq<u8> {
    seq![
        0x57u8, 0x69, 0x6e, 0x64, 0x6f, 0x77, 0x73, 0x20, 0x4d, 0x65, 0x64, 0x69, 0x61, 0x20, 0x50, 0x6c, 0x61, 0x79, 0x65, 0x72, 0x20, 0x39, 0x20, 0x53, 0x65, 0x72, 0x69, 0x65, 0x73, 0x00, 0x5f, 0x00, 0x00, 0x00, 0x00
    ].update(30, byte)
}

/// Builds the content of a popularimeter frame.
pub fn popularimeter(byte: u8) -> (data: Vec<u8>)
    ensures
        data@ == spec_popularimeter(byte),
{
    let mut data: Vec<u8> = Vec::new();
    data.push(0x57);
    data.push(0x69);
    data.push(0x6e);
    data.push(0x64);
    data.push(0x6f);
    data.push(0x77);
    data.push(0x73);
    data.push(0x20);
    data.push(0x4d);
    data.push(0x65);
    data.push(0x64);
    data.push(0x69);
    data.push(0x61);
    data.push(0x20);
    data.push(0x50);
    data.push(0x6c);
    data.push(0x61);
    data.push(0x79);
    data.push(0x65);
    data.push(0x72);
    data.push(0x20);
    data.push(0x39);
    data.push(0x20);
    data.push(0x53);
    data.push(0x65);
    data.push(0x72);
    data.push(0x69);
    data.push(0x65);
    data.push(0x73);
    data.push(0x00);
    data.push(byte);
    data.push(0x00);
    data.push(0x00);
    data.push(0x00);
    data.push(0x00);
    assert(data@ =~= spec_popularimeter(byte));
    data
}

/// A text without the spaces and underscores in it.
pub open spec fn without_separators(text: Seq<char>) -> Seq<char>
    decreases text.len(),
{
    if text.len() == 0 {
        text
    } else if text.last() == ' ' || text.last() == '_' {
        without_separators(text.drop_last())
    } else {
        without_separators(text.drop_last()).push(text.last())
    }
}

/// The frame that a comment of the given name becomes. The name counts
/// without regard to case, spaces and underscores: it comes here in lower
/// case and without separators.
pub open spec fn spec_frame_id(name: Seq<char>) -> Option<FrameId> {
    if name == "album"@ {
        Some(FrameId::Album)
    } else if name == "albumartist"@ {
        Some(FrameId::AlbumArtist)
    } else if name == "artist"@ {
        Some(FrameId::Artist)
    } else if name == "date"@ {
        Some(FrameId::ReleaseTime)
    } else if name == "disc"@ || name == "discnumber"@ {
        Some(FrameId::Disc)
    } else if name == "genre"@ {
        Some(FrameId::Genre)
    } else if name == "software"@ {
        Some(FrameId::Software)
    } else if name == "title"@ {
        Some(FrameId::Title)
    } else if name == "track"@ || name == "tracknumber"@ {
        Some(FrameId::Track)
    } else if name == "rating"@ {
        Some(FrameId::Popularimeter)
    } else {
        None
    }
}

/// The number of stars that the text of a rating gives: a whole number with
/// an optional sign, of which zero to five count.
pub open spec fn spec_stars(value: Seq<char>) -> Option<u8> {
    let number = if value.len() > 0 && value[0] == '-' {
        match spec_parse_u32(value.skip(1)) {
            Some(n) => if n == 0 && !(value.len() > 1 && value[1] == '+') {
                Some(0u32)
            } else {
                None
            },
            None => None,
        }
    } else {
        spec_parse_u32(value)
    };
    match number {
        Some(n) => spec_rating_byte(n as int),
        None => None,
    }
}

/// What a frame holds, for comparison in contracts.
pub ghost enum Payload {
    Text(Seq<char>),
    Bytes(Seq<u8>),
    Picture { mime_type: Seq<char>, picture_type: PictureType, description: Seq<char>, data: Seq<u8> },
}

/// The id and the content of the frame that a comment of the form
/// `name=value` becomes. The value counts without the white space around it.
/// A comment without `=`, with a name that has no frame, or with a rating that
/// is none becomes no frame.
pub open spec fn spec_translate(comment: Seq<char>) -> Option<(FrameId, Payload)> {
    let split = spec_index_of(comment, '=');
    if split >= comment.len() {
        None
    } else {
        let name = without_separators(lowered(comment.subrange(0, split)));
        let value = spec_trim(comment.subrange(split + 1, comment.len() as int));
        match spec_frame_id(name) {
            Some(FrameId::Popularimeter) => match spec_stars(value) {
                Some(byte) => Some((FrameId::Popularimeter, Payload::Bytes(spec_popularimeter(byte)))),
                None => None,
            },
            Some(id) => Some((id, Payload::Text(value))),
            None => None,
        }
    }
}

/// The id and the content of a frame, for comparison in contracts.
pub open spec fn frame_view(frame: Frame) -> (FrameId, Payload) {
    (
        frame.id,
        match frame.content {
            Content::Text(text) => Payload::Text(text@),
            Content::Unknown(data) => Payload::Bytes(data@),
            Content::Picture { mime_type, picture_type, description, data } => Payload::Picture {
                mime_type: mime_type@,
                picture_type,
                description: description@,
                data: data@,
            },
        },
    )
}

/// Removes spaces and underscores from a text.
pub fn strip_separators(text: &Vec<char>) -> (r: Vec<char>)
    ensures
        r@ == without_separators(text@),
{
    let mut out: Vec<char> = Vec::new();
    let mut i: usize = 0;
    assert(text@.take(0) =~= Seq::<char>::empty());
    while i < text.len()
        invariant
            i <= text@.len(),
            out@ == without_separators(text@.take(i as int)),
        decreases text@.len() - i,
    {
        let c = text[i];
        proof {
            assert(text@.take(i + 1).drop_last() =~= text@.take(i as int));
            assert(text@.take(i + 1).last() == c);
        }
        if c != ' ' && c != '_' {
            out.push(c);
        }
        i += 1;
    }
    assert(text@.take(text@.len() as int) =~= text@);
    out
}

/// Names the frame of a comment by its name in lower case and without
/// separators.
pub fn frame_id(name: &Vec<char>) -> (r: Option<FrameId>)
    ensures
        r == spec_frame_id(name@),
{
    let name = name.as_slice();
    if is_text(name, "album") {
        Some(FrameId::Album)
    } else if is_text(name, "albumartist") {
        Some(FrameId::AlbumArtist)
    } else if is_text(name, "artist") {
        Some(FrameId::Artist)
    } else if is_text(name, "date") {
        Some(FrameId::ReleaseTime)
    } else if is_text(name, "disc") || is_text(name, "discnumber") {
        Some(FrameId::Disc)
    } else if is_text(name, "genre") {
        Some(FrameId::Genre)
    } else if is_text(name, "software") {
        Some(FrameId::Software)
    } else if is_text(name, "title") {
        Some(FrameId::Title)
    } else if is_text(name, "track") || is_text(name, "tracknumber") {
        Some(FrameId::Track)
    } else if is_text(name, "rating") {
        Some(FrameId::Popularimeter)
    } else {
        None
    }
}

/// Reads the stars of a rating.
pub fn stars(value: &Vec<char>) -> (r: Option<u8>)
    ensures
        r == spec_stars(value@),
{
    let number: Option<u32> = if value.len() > 0 && value[0] == '-' {
        let mut rest: Vec<char> = Vec::new();
        let mut i: usize = 1;
        while i < value.len()
            invariant
                1 <= i <= value@.len(),
                rest@ == value@.subrange(1, i as int),
            decreases value@.len() - i,
        {
            rest.push(value[i]);
            i += 1;
            assert(rest@ =~= value@.subrange(1, i as int));
        }
        assert(rest@ =~= value@.skip(1));
        match parse_u32(&rest) {
            Some(n) => if n == 0 && !(value.len() > 1 && value[1] == '+') {
                Some(0)
            } else {
                None
            },
            None => None,
        }
    } else {
        parse_u32(value)
    };
    match number {
        Some(n) => rating_byte(n),
        None => None,
    }
}

/// Turns a comment of a FLAC file into the frame of a tag.
pub fn translate_comment(comment: &Vec<char>) -> (r: Option<Frame>)
    ensures
        match r {
            Some(frame) => spec_translate(comment@) == Some(frame_view(frame)),
            None => spec_translate(comment@) is None,
        },
{
    let split = index_of(comment.as_slice(), '=');
    if split >= comment.len() {
        return None;
    }
    let mut key: Vec<char> = Vec::new();
    let mut i: usize = 0;
    while i < split
        invariant
            i <= split < comment@.len(),
            key@ == comment@.subrange(0, i as int),
        decreases split - i,
    {
        key.push(comment[i]);
        i += 1;
        assert(key@ =~= comment@.subrange(0, i as int));
    }
    let name = strip_separators(&to_lowercase(&key));
    let value = trim(vstd::slice::slice_subrange(comment.as_slice(), split + 1, comment.len()));
    match frame_id(&name) {
        Some(FrameId::Popularimeter) => match stars(&value) {
            Some(byte) => Some(
                Frame { id: FrameId::Popularimeter, content: Content::Unknown(popularimeter(byte)) },
            ),
            None => None,
        },
        Some(id) => Some(Frame { id, content: Content::Text(string_of(&value)) }),
        None => None,
    }
}

/// The kind of a picture by its number in a FLAC file; a number beyond the
/// known kinds counts as the first, `Other`.
pub open spec fn spec_picture_type(number: u32) -> PictureType {
    if number == 1 {
        PictureType::Icon
    } else if number == 2 {
        PictureType::OtherIcon
    } else if number == 3 {
        PictureType::CoverFront
    } else if number == 4 {
        PictureType::CoverBack
    } else if number == 5 {
        PictureType::Leaflet
    } else if number == 6 {
        PictureType::Media
    } else if number == 7 {
        PictureType::LeadArtist
    } else if number == 8 {
        PictureType::Artist
    } else if number == 9 {
        PictureType::Conductor
    } else if number == 10 {
        PictureType::Band
    } else if number == 11 {
        PictureType::Composer
    } else if number == 12 {
        PictureType::Lyricist
    } else if number == 13 {
        PictureType::RecordingLocation
    } else if number == 14 {
        PictureType::DuringRecording
    } else if number == 15 {
        PictureType::DuringPerformance
    } else if number == 16 {
        PictureType::ScreenCapture
    } else if number == 17 {
        PictureType::BrightFish
    } else if number == 18 {
        PictureType::Illustration
    } else if number == 19 {
        PictureType::BandLogo
    } else if number == 20 {
        PictureType::PublisherLogo
    } else {
        PictureType::Other
    }
}

/// Names the kind of a picture.
pub fn picture_type(number: u32) -> (r: PictureType)
    ensures
        r == spec_picture_type(number),
{
    match number {
        1 => PictureType::Icon,
        2 => PictureType::OtherIcon,
        3 => PictureType::CoverFront,
        4 => PictureType::CoverBack,
        5 => PictureType::Leaflet,
        6 => PictureType::Media,
        7 => PictureType::LeadArtist,
        8 => PictureType::Artist,
        9 => PictureType::Conductor,
        10 => PictureType::Band,
        11 => PictureType::Composer,
        12 => PictureType::Lyricist,
        13 => PictureType::RecordingLocation,
        14 => PictureType::DuringRecording,
        15 => PictureType::DuringPerformance,
        16 => PictureType::ScreenCapture,
        17 => PictureType::BrightFish,
        18 => PictureType::Illustration,
        19 => PictureType::BandLogo,
        20 => PictureType::PublisherLogo,
        _ => PictureType::Other,
    }
}

} // verus!
