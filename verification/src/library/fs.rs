//! The library of the file system: an index of the audio files below a
//! directory, kept up to date as files change, and playlists in M3U files.

use vstd::prelude::*;
use crate::pattern::is_text;

pub mod playlist;

verus! {

/// Why the library of the file system failed.
#[derive(Debug, PartialEq, Eq)]
pub enum Error {
    Format(crate::format::Error),
    IO(crate::stream::IoError),
    /// The index failed; the text says how.
    Sqlite(String),
    /// No directory for the index was found; the text says why.
    Xdg(String),
    /// The path is no text.
    BadPath(String),
    /// The track cannot seek.
    NonSeek,
    Unspecified,
}

impl Error {
    /// A short name for the kind of failure.
    pub fn description(&self) -> (s: &'static str)
        ensures
            s@ == "Filesystem library error"@,
    {
        "Filesystem library error"
    }
}

/// What happened to a file or a directory below the root.
#[derive(Copy, Clone, Debug, PartialEq, Eq, Structural)]
pub enum Change {
    Create,
    Write,
    Chmod,
    Remove,
    /// The path moved from a source to a destination.
    Rename,
    NoticeWrite,
    NoticeRemove,
    Rescan,
    Error,
}

/// A path of a change.
#[derive(Copy, Clone, Debug, PartialEq, Eq, Structural)]
pub enum Which {
    /// The path of the change, or the source of a move.
    Path,
    /// The destination of a move.
    Destination,
}

/// What the index does about a change.
#[derive(Copy, Clone, Debug, PartialEq, Eq, Structural)]
pub enum Action {
    /// Add the path to the index, or update it there, with all below it.
    Add(Which),
    /// Remove from the index what lies at or below the path and is no file
    /// any more.
    Clean(Which),
}

/// What the index does about a change, in order: new and written files are
/// added, files whose mode changed are added and those that left are cleaned,
/// removed files are cleaned, and of a move the source is cleaned and the
/// destination added. Notices, rescans and errors change nothing.
pub open spec fn spec_actions(change: Change) -> Seq<Action> {
    match change {
        Change::Create | Change::Write => seq![Action::Add(Which::Path)],
        Change::Chmod => seq![Action::Add(Which::Path), Action::Clean(Which::Path)],
        Change::Remove => seq![Action::Clean(Which::Path)],
        Change::Rename => seq![Action::Clean(Which::Path), Action::Add(Which::Destination)],
        _ => Seq::empty(),
    }
}

/// Decides what the index does about a change.
pub fn actions(change: Change) -> (r: Vec<Action>)
    ensures
        r@ == spec_actions(change),
{
    let mut out: Vec<Action> = Vec::new();
    match change {
        Change::Create | Change::Write => {
            out.push(Action::Add(Which::Path));
        },
        Change::Chmod => {
            out.push(Action::Add(Which::Path));
            out.push(Action::Clean(Which::Path));
        },
        Change::Remove => {
            out.push(Action::Clean(Which::Path));
        },
        Change::Rename => {
            out.push(Action::Clean(Which::Path));
            out.push(Action::Add(Which::Destination));
        },
        _ => {},
    }
    assert(out@ =~= spec_actions(change));
    out
}

/// What becomes of a file that is looked at for the index.
#[derive(Debug, PartialEq, Eq)]
pub enum Indexing {
    /// The index has the file as it is.
    UpToDate,
    /// The file is no audio.
    NotAudio,
    /// The file does not say how long it is.
    UnknownLength,
    /// The file goes into the index.
    Upsert,
    /// The file is audio and cannot be read.
    Failed(crate::format::Error),
}

/// Decides what becomes of a file: whether the index already has it with this
/// time of modification, and else by what decoding it gave, the number of
/// frames or an error.
pub fn indexing(up_to_date: bool, decoded: Result<Option<u64>, crate::format::Error>) -> (r: Indexing)
    ensures
        r == if up_to_date {
            Indexing::UpToDate
        } else {
            match decoded {
                Err(crate::format::Error::Unsupported) => Indexing::NotAudio,
                Err(e) => Indexing::Failed(e),
                Ok(None) => Indexing::UnknownLength,
                Ok(Some(_)) => Indexing::Upsert,
            }
        },
{
    if up_to_date {
        return Indexing::UpToDate;
    }
    match decoded {
        Err(crate::format::Error::Unsupported) => Indexing::NotAudio,
        Err(e) => Indexing::Failed(e),
        Ok(None) => Indexing::UnknownLength,
        Ok(Some(_)) => Indexing::Upsert,
    }
}

/// The part that an artist has in a track.
#[derive(Copy, Clone, Debug, PartialEq, Eq, Structural)]
pub enum Credit {
    Artist,
    AlbumArtist,
    Remixer,
}

/// The part of an artist by the type that the index stores with the name: no
/// type for an artist of the track, `album` and `remixer` for the others.
pub open spec fn spec_credit(kind: Option<Seq<char>>) -> Option<Credit> {
    match kind {
        None => Some(Credit::Artist),
        Some(text) => if text == "album"@ {
            Some(Credit::AlbumArtist)
        } else if text == "remixer"@ {
            Some(Credit::Remixer)
        } else {
            None
        },
    }
}

/// Reads the part of an artist from its stored type.
pub fn credit(kind: Option<&Vec<char>>) -> (r: Option<Credit>)
    ensures
        r == spec_credit(
            match kind {
                Some(text) => Some(text@),
                None => None,
            },
        ),
{
    match kind {
        None => Some(Credit::Artist),
        Some(text) => if is_text(text.as_slice(), "album") {
            Some(Credit::AlbumArtist)
        } else if is_text(text.as_slice(), "remixer") {
            Some(Credit::Remixer)
        } else {
            None
        },
    }
}

/// The type that the index stores with an artist's name.
pub fn credit_name(credit: Credit) -> (r: Option<&'static str>)
    ensures
        match r {
            Some(text) => spec_credit(Some(text@)) == Some(credit) && credit != Credit::Artist,
            None => credit == Credit::Artist,
        },
{
    proof {
        reveal_strlit("remixer");
        reveal_strlit("album");
        assert("remixer"@.len() == 7 && "album"@.len() == 5);
    }
    match credit {
        Credit::Artist => None,
        Credit::AlbumArtist => Some("album"),
        Credit::Remixer => Some("remixer"),
    }
}

/// The version under which a schema is stored with the index: the hash of its
/// text, reduced below 2^32 - 1.
pub fn wanted_version(schema_hash: u64) -> (v: i64)
    ensures
        v == schema_hash % 0xffff_ffff,
{
    (schema_hash % 0xffff_ffff) as i64
}

/// Whether the index has to be set up anew: whenever its version is not the
/// wanted one.
pub fn needs_init(db_version: i64, wanted_version: i64) -> (b: bool)
    ensures
        b == (db_version != wanted_version),
{
    db_version != wanted_version
}

} // verus!
