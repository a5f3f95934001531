//! Container formats: how a file's bytes are recognised, indexed and decoded,
//! and what a file tells about itself.

use vstd::prelude::*;
use crate::stream::{Cursor, IoError};

pub mod flac;
pub mod mp3;
pub mod tag;
pub mod wave;

verus! {

/// The container formats that are told apart.
#[derive(Copy, Clone, Debug, PartialEq, Eq, Structural)]
pub enum Format {
    Flac,
    Mp3,
    Wave,
    Unknown,
}

/// What a file tells about its audio.
#[derive(Debug, PartialEq, Eq)]
pub struct Metadata {
    pub sample_rate: u32,
    /// The number of frames, if the file says.
    pub num_samples: Option<u64>,
    pub tag: Option<tag::Tag>,
}

#[derive(Debug, PartialEq, Eq)]
pub enum Error {
    /// The format is not supported.
    Unsupported,
    IO(IoError),
    Flac(flac::Error),
    Mp3(mp3::Error),
    Wave(wave::Error),
}

impl Error {
    /// A short name for the kind of failure.
    pub fn description(&self) -> (s: &'static str)
        ensures
            s@ == "Format error"@,
    {
        "Format error"
    }
}

/// The number of bytes at the start of a file by which its format is told.
pub const HEADER_SIZE: usize = 512;

/// The bytes of a file by which its format is told: the first 512.
pub open spec fn header_of(data: Seq<u8>) -> Seq<u8> {
    if data.len() <= HEADER_SIZE {
        data
    } else {
        data.subrange(0, HEADER_SIZE as int)
    }
}

/// The extension `flac`.
pub open spec fn flac_extension() -> Seq<char> {
    seq!['f', 'l', 'a', 'c']
}

/// The format of a file by the start of its bytes. A FLAC file may carry an
/// ID3 tag in front and then looks like an MP3 file: the extension `flac`
/// decides for FLAC there.
pub open spec fn spec_detect_format(data: Seq<u8>, extension: Option<Seq<char>>) -> Format {
    let header = header_of(data);
    if flac::spec_magic(header) {
        Format::Flac
    } else if mp3::spec_magic(header) {
        if extension == Some(flac_extension()) {
            Format::Flac
        } else {
            Format::Mp3
        }
    } else if wave::spec_magic(header) is Some {
        Format::Wave
    } else {
        Format::Unknown
    }
}

/// Tells the format of a file from its first bytes and its extension.
pub fn detect_format(data: &[u8], extension: Option<&Vec<char>>) -> (f: Format)
    ensures
        f == spec_detect_format(
            data@,
            match extension {
                Some(e) => Some(e@),
                None => None,
            },
        ),
{
    let header = if data.len() <= HEADER_SIZE {
        data
    } else {
        vstd::slice::slice_subrange(data, 0, HEADER_SIZE)
    };
    if flac::magic(header) {
        Format::Flac
    } else if mp3::magic(header) {
        let is_flac = match extension {
            Some(e) => {
                let b = e.len() == 4 && e[0] == 'f' && e[1] == 'l' && e[2] == 'a' && e[3] == 'c';
                proof {
                    if b {
                        assert(e@ =~= flac_extension());
                    }
                }
                b
            },
            None => false,
        };
        if is_flac {
            Format::Flac
        } else {
            Format::Mp3
        }
    } else if wave::magic(header).is_some() {
        Format::Wave
    } else {
        Format::Unknown
    }
}

/// A file after its format has been told: the decoder of a WAVE file, or the
/// stream, at its start, for the decoder of the format.
pub enum Decoded {
    Flac(Cursor),
    Mp3(Cursor),
    Wave(wave::Decoder),
}

/// Tells the format of a file and sets up what decodes it. A file of unknown
/// format is not supported; a WAVE file that cannot be decoded gives the
/// decoder's error.
pub fn decode_file(data: Vec<u8>, extension: Option<&Vec<char>>) -> (r: Result<Decoded, Error>)
    ensures
        match spec_detect_format(
            data@,
            match extension {
                Some(e) => Some(e@),
                None => None,
            },
        ) {
            Format::Unknown => r == Err::<Decoded, Error>(Error::Unsupported),
            Format::Flac => r matches Ok(Decoded::Flac(stream)) && stream.data@ == data@
                && stream.pos == 0,
            Format::Mp3 => r matches Ok(Decoded::Mp3(stream)) && stream.data@ == data@
                && stream.pos == 0,
            Format::Wave => match wave::spec_decode(data@) {
                Ok(info) => r matches Ok(Decoded::Wave(decoder)) && decoder.info == info
                    && decoder.input.data@ == data@ && decoder.input.pos == info.data_range.start
                    && decoder.next_sample == 0,
                Err(e) => r == Err::<Decoded, Error>(Error::Wave(e)),
            },
        },
{
    let format = detect_format(data.as_slice(), extension);
    match format {
        Format::Unknown => Err(Error::Unsupported),
        Format::Flac => Ok(Decoded::Flac(Cursor::new(data))),
        Format::Mp3 => Ok(Decoded::Mp3(Cursor::new(data))),
        Format::Wave => match wave::decode(Cursor::new(data)) {
            Ok(decoder) => Ok(Decoded::Wave(decoder)),
            Err(e) => Err(Error::Wave(e)),
        },
    }
}

impl Metadata {
    /// The time that the audio takes, where its number of frames is known.
    pub fn duration(&self) -> (d: Option<crate::audio::Duration>)
        requires
            self.sample_rate > 0,
        ensures
            d == match self.num_samples {
                Some(n) => Some(crate::audio::spec_duration_of(self.sample_rate, n)),
                None => None,
            },
    {
        match self.num_samples {
            Some(n) => Some(crate::audio::duration_of(self.sample_rate, n)),
            None => None,
        }
    }
}

} // verus!
