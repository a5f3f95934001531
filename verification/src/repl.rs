//! The commands of the interactive prompt, and how times are shown there.

use vstd::prelude::*;
use crate::audio::Duration;
use crate::pattern::{
    digits, is_text, parse_u64, spec_digits, spec_parse_u64, spec_two_digits, two_digits,
};

verus! {

/// What a line at the prompt asks for.
#[derive(Debug, PartialEq, Eq)]
pub enum Command {
    /// `list`: show the tracks of the library and let one be chosen.
    List,
    /// `prev`: play the item before the cursor.
    Prev,
    /// `next`: play the item behind the cursor.
    Next,
    /// `pause`
    Pause,
    /// `play`
    Play,
    /// `stop`
    Stop,
    /// `info`: show what plays.
    Info,
    /// `queue`: show the queue and the cursor.
    Queue,
    /// `j` and a number: play the item at that index of the queue.
    Jump(usize),
    /// `:` and a number: seek to that second.
    Seek(u64),
    /// `t` and a ratio: set the tempo. The text of the ratio is handed on as
    /// it is.
    Tempo(Vec<char>),
    /// A line that starts like a command and does not end like one; nothing
    /// happens.
    Ignored,
    /// Anything else.
    Unknown,
}

/// What a command is, for comparison in contracts.
pub ghost enum CommandView {
    List,
    Prev,
    Next,
    Pause,
    Play,
    Stop,
    Info,
    Queue,
    Jump(usize),
    Seek(u64),
    Tempo(Seq<char>),
    Ignored,
    Unknown,
}

impl Command {
    pub open spec fn view(&self) -> CommandView {
        match *self {
            Command::List => CommandView::List,
            Command::Prev => CommandView::Prev,
            Command::Next => CommandView::Next,
            Command::Pause => CommandView::Pause,
            Command::Play => CommandView::Play,
            Command::Stop => CommandView::Stop,
            Command::Info => CommandView::Info,
            Command::Queue => CommandView::Queue,
            Command::Jump(i) => CommandView::Jump(i),
            Command::Seek(s) => CommandView::Seek(s),
            Command::Tempo(text) => CommandView::Tempo(text@),
            Command::Ignored => CommandView::Ignored,
            Command::Unknown => CommandView::Unknown,
        }
    }
}

/// The command of a line. The words count as a whole line; `j`, `:` and `t`
/// count as the first character, with the rest of the line as their argument.
pub open spec fn spec_command(line: Seq<char>) -> CommandView {
    if line == "list"@ {
        CommandView::List
    } else if line == "prev"@ {
        CommandView::Prev
    } else if line == "next"@ {
        CommandView::Next
    } else if line == "pause"@ {
        CommandView::Pause
    } else if line == "play"@ {
        CommandView::Play
    } else if line == "stop"@ {
        CommandView::Stop
    } else if line == "info"@ {
        CommandView::Info
    } else if line == "queue"@ {
        CommandView::Queue
    } else if line.len() > 0 && line[0] == 'j' {
        match spec_parse_u64(line.skip(1)) {
            Some(i) if i <= usize::MAX => CommandView::Jump(i as usize),
            _ => CommandView::Ignored,
        }
    } else if line.len() > 0 && line[0] == ':' {
        match spec_parse_u64(line.skip(1)) {
            Some(s) => CommandView::Seek(s),
            None => CommandView::Ignored,
        }
    } else if line.len() > 0 && line[0] == 't' {
        CommandView::Tempo(line.skip(1))
    } else {
        CommandView::Unknown
    }
}

/// Reads the command of a line.
pub fn command(line: &[char]) -> (c: Command)
    ensures
        c@ == spec_command(line@),
{
    if is_text(line, "list") {
        Command::List
    } else if is_text(line, "prev") {
        Command::Prev
    } else if is_text(line, "next") {
        Command::Next
    } else if is_text(line, "pause") {
        Command::Pause
    } else if is_text(line, "play") {
        Command::Play
    } else if is_text(line, "stop") {
        Command::Stop
    } else if is_text(line, "info") {
        Command::Info
    } else if is_text(line, "queue") {
        Command::Queue
    } else if line.len() > 0 && (line[0] == 'j' || line[0] == ':' || line[0] == 't') {
        let rest = vstd::slice::slice_subrange(line, 1, line.len());
        assert(rest@ =~= line@.skip(1));
        if line[0] == 'j' {
            match parse_u64(rest) {
                Some(i) => if i <= usize::MAX as u64 {
                    Command::Jump(i as usize)
                } else {
                    Command::Ignored
                },
                None => Command::Ignored,
            }
        } else if line[0] == ':' {
            match parse_u64(rest) {
                Some(s) => Command::Seek(s),
                None => Command::Ignored,
            }
        } else {
            let mut text: Vec<char> = Vec::new();
            let mut i: usize = 0;
            while i < rest.len()
                invariant
                    i <= rest@.len(),
                    text@ == rest@.subrange(0, i as int),
                decreases rest@.len() - i,
            {
                text.push(rest[i]);
                i += 1;
                assert(text@ =~= rest@.subrange(0, i as int));
            }
            assert(text@ =~= rest@);
            Command::Tempo(text)
        }
    } else {
        Command::Unknown
    }
}

/// The index that a line chooses from a list, if it is a number.
pub fn choice(line: &[char]) -> (r: Option<usize>)
    ensures
        r == match spec_parse_u64(line@) {
            Some(i) if i <= usize::MAX => Some(i as usize),
            _ => None,
        },
{
    match parse_u64(line) {
        Some(i) => if i <= usize::MAX as u64 {
            Some(i as usize)
        } else {
            None
        },
        None => None,
    }
}

/// A time as minutes and seconds, each with at least two digits, and the
/// whole seconds that its nanoseconds make up: `03:07.0`.
pub open spec fn spec_format_duraton(dur: Duration) -> Seq<char> {
    spec_two_digits((dur.secs / 60) as nat) + seq![':'] + spec_two_digits((dur.secs % 60) as nat)
        + seq!['.'] + spec_digits((dur.nanos / 1_000_000_000) as nat)
}

/// Writes a time for the prompt.
pub fn format_duraton(dur: &Duration) -> (text: Vec<char>)
    ensures
        text@ == spec_format_duraton(*dur),
{
    let mut text = two_digits(dur.secs / 60);
    text.push(':');
    let mut seconds = two_digits(dur.secs % 60);
    text.append(&mut seconds);
    text.push('.');
    let mut rest = digits((dur.nanos / 1_000_000_000) as u64);
    text.append(&mut rest);
    assert(text@ =~= spec_format_duraton(*dur));
    text
}

} // verus!
