//! Libraries of audio, the playlists made of their items, and what is known
//! about a track.

use vstd::prelude::*;

pub mod fs;
pub mod order;
pub mod release;
pub mod track;

pub use crate::library::release::{ParseError, Release};

verus! {

/// Why a change to a playlist was refused.
#[derive(Debug, PartialEq, Eq)]
pub enum PlaylistError {
    /// No library has this name.
    MissingLibrary(String),
    /// An index is larger than the playlist allows.
    IndexOutOfBounds,
    /// The list of indices and the playlist differ in length.
    MoveLengthMismatch,
    /// An index occurs twice.
    MoveDuplicateIndices,
}

impl PlaylistError {
    /// A short name for the kind of failure.
    pub fn description(&self) -> (s: &'static str)
        ensures
            s@ == "Playlist error"@,
    {
        "Playlist error"
    }
}

/// Something that a library can find again: the name of its library, and a
/// text that identifies it there.
pub trait Identity {
    fn id(&self) -> (String, String);
}

/// What is known about a track.
pub trait TrackInfo {
    fn title(&self) -> String;

    fn artists(&self) -> Vec<String>;

    /// The artists who made this track as a remix or rework of another.
    fn remixers(&self) -> Vec<String>;

    fn genres(&self) -> Vec<String>;

    /// The title of the album, if known. Tracks with the same album artists
    /// and album title belong to one album.
    fn album_title(&self) -> Option<String>;

    fn album_artists(&self) -> Vec<String>;

    /// The number of the disc, from 1 on, if known.
    fn album_disc(&self) -> Option<i32>;

    /// The place of the track on its album, from 1 on, if known.
    fn album_track(&self) -> Option<i32>;

    /// The number of stars, from 1 to 5, if known.
    fn rating(&self) -> (r: Option<u8>)
        ensures
            r matches Some(stars) ==> 1 <= stars <= 5,
    ;

    fn release(&self) -> Option<Release>;
}

/// A collection of audio that finds its items by their identity.
pub trait Library {
    type Audio;

    /// The name of the library as contracts speak of it; for verified
    /// implementations to define.
    open spec fn spec_name(&self) -> Seq<char> {
        arbitrary()
    }

    /// The unique name of this library. It holds no white space.
    fn name(&self) -> (n: String)
        ensures
            n@ == self.spec_name(),
    ;

    /// Whether `answer` is one that this library may give when it is asked
    /// for the item with the text `item`; for verified implementations to
    /// define.
    open spec fn finds(&self, item: Seq<char>, answer: Result<Option<Self::Audio>, String>) -> bool {
        arbitrary()
    }

    /// Looks an item up by the text that identifies it in this library.
    /// `Ok(None)` says that the library has no such item, an error that the
    /// lookup failed.
    fn find_by_id(&self, item: &String) -> (r: Result<Option<Self::Audio>, String>)
        ensures
            self.finds(item@, r),
    ;
}

/// Why identities could not be resolved.
#[derive(Debug, PartialEq, Eq)]
pub enum ResolveError {
    Playlist(PlaylistError),
    /// A library failed to look an item up; the text says how.
    Library(String),
}

/// Whether one of the libraries carries the name.
pub open spec fn has_library<L: Library>(libs: Seq<L>, name: Seq<char>) -> bool {
    exists|l: int| 0 <= l < libs.len() && (#[trigger] libs[l]).spec_name() == name
}

/// Whether library `l` is the first that carries the name.
pub open spec fn is_first_library<L: Library>(libs: Seq<L>, name: Seq<char>, l: int) -> bool {
    &&& 0 <= l < libs.len()
    &&& libs[l].spec_name() == name
    &&& forall|k: int| 0 <= k < l ==> (#[trigger] libs[k]).spec_name() != name
}

/// Whether `answer` is one that the library of an identity, the first with
/// the identity's library name, may give for the identity's item.
pub open spec fn answered<L: Library>(
    libs: Seq<L>,
    id: (String, String),
    answer: Result<Option<L::Audio>, String>,
) -> bool {
    exists|l: int| #[trigger] is_first_library(libs, id.0@, l) && libs[l].finds(id.1@, answer)
}

/// The items that answers hold, in the order of the answers: an answer
/// without an item adds none.
pub open spec fn found_items<A>(answers: Seq<Result<Option<A>, String>>) -> Seq<A>
    decreases answers.len(),
{
    if answers.len() == 0 {
        Seq::empty()
    } else {
        match answers.last() {
            Ok(Some(item)) => found_items(answers.drop_last()).push(item),
            _ => found_items(answers.drop_last()),
        }
    }
}

/// Whether `r` is what resolving `ids` gives when the lookups of the first
/// identities answered `answers`, each identity asked of its own library.
/// All answers but the last are successes. After a success for every identity
/// the result is the items found. After a failed lookup, which is the last
/// answer, the result is its error. Else the identity behind the last answer
/// has no library, and the result says so.
pub open spec fn resolves<L: Library>(
    libs: Seq<L>,
    ids: Seq<(String, String)>,
    answers: Seq<Result<Option<L::Audio>, String>>,
    r: Result<Vec<L::Audio>, ResolveError>,
) -> bool {
    &&& answers.len() <= ids.len()
    &&& forall|k: int| 0 <= k < answers.len() ==> answered(libs, ids[k], #[trigger] answers[k])
    &&& forall|k: int| 0 <= k < answers.len() - 1 ==> (#[trigger] answers[k]) is Ok
    &&& match r {
        Ok(items) => answers.len() == ids.len() && (answers.len() > 0 ==> answers.last() is Ok)
            && items@ == found_items(answers),
        Err(ResolveError::Library(text)) => answers.len() > 0 && answers.last() == Err::<
            Option<L::Audio>,
            String,
        >(text),
        Err(ResolveError::Playlist(e)) => (answers.len() > 0 ==> answers.last() is Ok)
            && answers.len() < ids.len() && !has_library(libs, ids[answers.len() as int].0@)
            && e == PlaylistError::MissingLibrary(ids[answers.len() as int].0),
    }
}

/// The library with the name: the first, should several carry it.
pub fn find_library<'a, L: Library>(libs: &'a Vec<L>, name: &String) -> (r: Option<&'a L>)
    ensures
        match r {
            Some(lib) => lib.spec_name() == name@ && has_library(libs@, name@) && exists|l: int|
                #[trigger] is_first_library(libs@, name@, l) && libs@[l] == *lib,
            None => !has_library(libs@, name@),
        },
{
    let mut l: usize = 0;
    while l < libs.len()
        invariant
            l <= libs@.len(),
            forall|k: int| 0 <= k < l ==> (#[trigger] libs@[k]).spec_name() != name@,
        decreases libs@.len() - l,
    {
        let lib_name = libs[l].name();
        if lib_name == *name {
            assert(is_first_library(libs@, name@, l as int));
            return Some(&libs[l]);
        }
        l += 1;
    }
    None
}

/// Takes in what a library answered for one identity: an item joins the
/// others, an item that the library does not have is passed over, and a
/// failure ends the whole.
pub fn resolved<A>(found: Result<Option<A>, String>, items: &mut Vec<A>) -> (r: Result<
    (),
    ResolveError,
>)
    ensures
        match found {
            Ok(Some(item)) => r is Ok && final(items)@ == old(items)@.push(item),
            Ok(None) => r is Ok && final(items)@ == old(items)@,
            Err(text) => r == Err::<(), ResolveError>(ResolveError::Library(text)) && final(items)@ == old(items)@,
        },
{
    match found {
        Ok(Some(item)) => {
            items.push(item);
            Ok(())
        },
        Ok(None) => Ok(()),
        Err(text) => Err(ResolveError::Library(text)),
    }
}

/// Looks every identity up in the library that it names, in order. The
/// first identity whose library is missing, or whose lookup fails, ends the
/// whole with that error. Items that their library does not have are left
/// out.
pub fn resolve_all<L: Library>(libs: &Vec<L>, ids: &Vec<(String, String)>) -> (r: Result<
    Vec<L::Audio>,
    ResolveError,
>)
    ensures
        exists|answers: Seq<Result<Option<L::Audio>, String>>| #[trigger]
            resolves(libs@, ids@, answers, r),
        match r {
            Ok(items) => items@.len() <= ids@.len() && forall|i: int|
                0 <= i < ids@.len() ==> has_library(libs@, (#[trigger] ids@[i]).0@),
            Err(ResolveError::Playlist(e)) => exists|i: int|
                {
                    &&& 0 <= i < ids@.len()
                    &&& !has_library(libs@, (#[trigger] ids@[i]).0@)
                    &&& e == PlaylistError::MissingLibrary(ids@[i].0)
                    &&& forall|k: int| 0 <= k < i ==> has_library(libs@, (#[trigger] ids@[k]).0@)
                },
            Err(ResolveError::Library(_)) => ids@.len() > 0 && has_library(libs@, ids@[0].0@),
        },
        ids@.len() == 0 ==> (r matches Ok(items) && items@.len() == 0),
        ids@.len() > 0 && !has_library(libs@, ids@[0].0@) ==> r == Err::<
            Vec<L::Audio>,
            ResolveError,
        >(ResolveError::Playlist(PlaylistError::MissingLibrary(ids@[0].0))),
{
    let mut items: Vec<L::Audio> = Vec::new();
    let ghost mut answers: Seq<Result<Option<L::Audio>, String>> = Seq::empty();
    let mut i: usize = 0;
    while i < ids.len()
        invariant
            i <= ids@.len(),
            items@.len() <= i,
            answers.len() == i,
            forall|k: int| 0 <= k < i ==> has_library(libs@, (#[trigger] ids@[k]).0@),
            forall|k: int| 0 <= k < i ==> answered(libs@, ids@[k], #[trigger] answers[k]),
            forall|k: int| 0 <= k < i ==> (#[trigger] answers[k]) is Ok,
            items@ == found_items(answers),
        decreases ids@.len() - i,
    {
        let lib = match find_library(libs, &ids[i].0) {
            Some(lib) => lib,
            None => {
                let r = Err(
                    ResolveError::Playlist(PlaylistError::MissingLibrary(ids[i].0.clone())),
                );
                proof {
                    assert(resolves(libs@, ids@, answers, r));
                }
                return r;
            },
        };
        let found = lib.find_by_id(&ids[i].1);
        let ghost answer = found;
        let ghost before = answers;
        proof {
            answers = answers.push(answer);
            assert(answered(libs@, ids@[i as int], answer));
            assert(answers.drop_last() =~= before);
            assert(has_library(libs@, ids@[0].0@));
        }
        match resolved(found, &mut items) {
            Ok(()) => {},
            Err(e) => {
                let r = Err(e);
                proof {
                    assert(resolves(libs@, ids@, answers, r));
                }
                return r;
            },
        }
        i += 1;
    }
    let r = Ok(items);
    proof {
        assert(resolves(libs@, ids@, answers, r));
    }
    r
}

} // verus!
