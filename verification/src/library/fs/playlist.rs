//! Playlists in M3U files. A file starts with the line `#EXTM3U`. Each entry
//! is a line `#EXTINF:seconds,title` and a line with the path of the entry,
//! absolute or relative to the directory of the playlist.

use vstd::prelude::*;
use crate::pattern::{chars_of, digits, is_text, spec_digits};

verus! {

/// Whether a line of a playlist names an entry: it is not empty and no
/// directive, which starts with `#`.
pub open spec fn spec_is_entry(line: Seq<char>) -> bool {
    line.len() > 0 && line[0] != '#'
}

/// Tells whether a line names an entry.
pub fn is_entry(line: &[char]) -> (b: bool)
    ensures
        b == spec_is_entry(line@),
{
    line.len() > 0 && line[0] != '#'
}

/// The lines of a playlist that name an entry, in order.
pub open spec fn spec_entries(lines: Seq<Vec<char>>) -> Seq<Seq<char>>
    decreases lines.len(),
{
    if lines.len() == 0 {
        Seq::empty()
    } else if spec_is_entry(lines.last()@) {
        spec_entries(lines.drop_last()).push(lines.last()@)
    } else {
        spec_entries(lines.drop_last())
    }
}

/// The number of entries of a playlist, from its lines.
pub fn len(lines: &Vec<Vec<char>>) -> (n: usize)
    ensures
        n == spec_entries(lines@).len(),
{
    let mut count: usize = 0;
    let mut i: usize = 0;
    assert(lines@.take(0) =~= Seq::<Vec<char>>::empty());
    while i < lines.len()
        invariant
            i <= lines@.len(),
            count == spec_entries(lines@.take(i as int)).len(),
            count <= i,
        decreases lines@.len() - i,
    {
        proof {
            assert(lines@.take(i + 1).drop_last() =~= lines@.take(i as int));
            assert(lines@.take(i + 1).last() == lines@[i as int]);
        }
        if is_entry(lines[i].as_slice()) {
            count += 1;
        }
        i += 1;
    }
    assert(lines@.take(lines@.len() as int) =~= lines@);
    count
}

/// The indices of the lines that name an entry.
pub fn entries(lines: &Vec<Vec<char>>) -> (r: Vec<usize>)
    ensures
        r@.len() == spec_entries(lines@).len(),
        forall|k: int|
            0 <= k < r@.len() ==> (#[trigger] r@[k]) < lines@.len() && lines@[r@[k] as int]@
                == spec_entries(lines@)[k],
{
    let mut out: Vec<usize> = Vec::new();
    let mut i: usize = 0;
    assert(lines@.take(0) =~= Seq::<Vec<char>>::empty());
    while i < lines.len()
        invariant
            i <= lines@.len(),
            out@.len() == spec_entries(lines@.take(i as int)).len(),
            forall|k: int|
                0 <= k < out@.len() ==> (#[trigger] out@[k]) < i && lines@[out@[k] as int]@
                    == spec_entries(lines@.take(i as int))[k],
        decreases lines@.len() - i,
    {
        proof {
            assert(lines@.take(i + 1).drop_last() =~= lines@.take(i as int));
            assert(lines@.take(i + 1).last() == lines@[i as int]);
        }
        if is_entry(lines[i].as_slice()) {
            out.push(i);
        }
        i += 1;
    }
    assert(lines@.take(lines@.len() as int) =~= lines@);
    out
}

/// The first line of a playlist.
pub open spec fn header_line() -> Seq<char> {
    "#EXTM3U"@
}

/// The line that describes an entry: its length in whole seconds and its
/// title.
pub open spec fn spec_info_line(seconds: u64, title: Seq<char>) -> Seq<char> {
    "#EXTINF:"@ + spec_digits(seconds as nat) + seq![','] + title
}

/// Writes the line that describes an entry.
pub fn info_line(seconds: u64, title: &[char]) -> (line: Vec<char>)
    ensures
        line@ == spec_info_line(seconds, title@),
{
    let mut line = chars_of("#EXTINF:");
    let mut number = digits(seconds);
    line.append(&mut number);
    line.push(',');
    let ghost head = line@;
    let mut i: usize = 0;
    while i < title.len()
        invariant
            i <= title@.len(),
            line@ == head + title@.subrange(0, i as int),
        decreases title@.len() - i,
    {
        line.push(title[i]);
        i += 1;
        assert(line@ =~= head + title@.subrange(0, i as int));
    }
    assert(title@.subrange(0, title@.len() as int) =~= title@);
    line
}

/// The two lines of an entry that the library knows nothing about: no length
/// and no title.
pub fn unknown_info_line() -> (line: Vec<char>)
    ensures
        line@ == "#EXTINF:0,"@,
{
    chars_of("#EXTINF:0,")
}

/// Whether an item can stand in a playlist of the file system: it has to
/// belong to the library `fs`.
pub fn accepts(library: &[char]) -> (b: bool)
    ensures
        b == (library@ == "fs"@),
{
    is_text(library, "fs")
}

} // verus!
