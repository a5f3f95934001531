//! The player: a queue of audio with a cursor, and the playbacks that run.

pub mod output;
pub mod playback;

use std::collections::BTreeMap;
use vstd::prelude::*;
use crate::audio::dynam;
use crate::audio::Seekable;
use crate::library::order::{
    check_move, find_position, is_permutation, lemma_permutation_onto, permute,
    permuted, shuffle_order, spec_check_move, spec_splice_order, splice_order,
};
use crate::library::PlaylistError;
use crate::player::playback::{Event, Playback, State};

verus! {

/// What the player does about an event of one of its playbacks.
#[derive(Debug, PartialEq, Eq)]
pub enum Reaction {
    /// The item ended by itself: play the next one of the queue.
    PlayNext,
    /// Report the text; the player goes on.
    Report(String),
    /// Nothing is left to do.
    Nothing,
}

/// A queue of audio items with a cursor on the selected one, and the
/// playbacks that run, each under an id of its own.
pub struct Player<A, K> {
    pub playing: BTreeMap<u64, Playback<K>>,
    /// The id that was given out last.
    pub gen_next_id: u64,
    pub queue: Vec<A>,
    pub queue_cursor: Option<usize>,
}

/// The cursor after `count` items have been put in at `position`: it follows
/// its item.
pub open spec fn cursor_after_insert(cursor: Option<usize>, position: int, count: int) -> Option<
    usize,
> {
    match cursor {
        Some(c) => if position <= c {
            Some((c + count) as usize)
        } else {
            Some(c)
        },
        None => None,
    }
}

/// The cursor after the items `start..end` have been taken out: it follows its
/// item, or stands on the item behind the gap if its own has left.
pub open spec fn cursor_after_remove(cursor: Option<usize>, start: int, end: int) -> Option<
    usize,
> {
    match cursor {
        Some(c) => if c >= end {
            Some((c - (end - start)) as usize)
        } else if c >= start {
            Some(start as usize)
        } else {
            Some(c)
        },
        None => None,
    }
}

impl<A, K: Seekable> Player<A, K> {
    /// The cursor lies within the queue, every playback is usable, and no
    /// playback has an id above the one that was given out last.
    pub open spec fn wf(&self) -> bool {
        &&& self.queue_cursor matches Some(c) ==> c < self.queue@.len()
        &&& forall|id: u64| #[trigger]
            self.playing@.contains_key(id) ==> self.playing@[id].wf() && id <= self.gen_next_id
    }

    /// The index that `play_previous_from_queue` plays.
    pub open spec fn spec_previous_index(&self) -> usize {
        match self.queue_cursor {
            Some(c) => if c > 0 {
                (c - 1) as usize
            } else {
                0
            },
            None => 0,
        }
    }

    /// The index that `play_next_from_queue` plays.
    pub open spec fn spec_next_index(&self) -> int {
        match self.queue_cursor {
            Some(c) => c + 1,
            None => 0,
        }
    }

    /// A player with an empty queue and nothing playing.
    pub fn new() -> (p: Player<A, K>)
        ensures
            p.wf(),
            p.playing@ == Map::<u64, Playback<K>>::empty(),
            p.gen_next_id == 0,
            p.queue@ == Seq::<A>::empty(),
            p.queue_cursor is None,
    {
        Player { playing: BTreeMap::new(), gen_next_id: 0, queue: Vec::new(), queue_cursor: None }
    }

    /// Sets up a paused playback for audio under the next id.
    pub fn init_playback(&mut self, audio: dynam::Audio, handle: Option<K>) -> (id: u64)
        requires
            old(self).wf(),
            old(self).gen_next_id < u64::MAX,
            handle matches Some(h) ==> h.valid(),
        ensures
            final(self).wf(),
            id == old(self).gen_next_id + 1,
            !old(self).playing@.contains_key(id),
            final(self).gen_next_id == id,
            final(self).queue@ == old(self).queue@,
            final(self).queue_cursor == old(self).queue_cursor,
            final(self).playing@ == old(self).playing@.insert(
                id,
                Playback::spec_new(audio, handle),
            ),
    {
        self.gen_next_id = self.gen_next_id + 1;
        let id = self.gen_next_id;
        let playback = Playback::new(audio, handle);
        self.playing.insert(id, playback);
        id
    }

    /// Stops whatever plays and plays the queue's item at `index`, whose audio
    /// the caller has opened. Behind the end of the queue nothing happens.
    pub fn play_from_queue(&mut self, index: usize, audio: dynam::Audio, handle: Option<K>) -> (r:
        Option<(u64, Event)>)
        requires
            old(self).wf(),
            old(self).gen_next_id < u64::MAX,
            handle matches Some(h) ==> h.valid(),
        ensures
            final(self).wf(),
            final(self).queue@ == old(self).queue@,
            index >= old(self).queue@.len() ==> {
                &&& r is None
                &&& final(self).playing@ == old(self).playing@
                &&& final(self).gen_next_id == old(self).gen_next_id
                &&& final(self).queue_cursor == old(self).queue_cursor
            },
            index < old(self).queue@.len() ==> {
                &&& r == Some(((old(self).gen_next_id + 1) as u64, Event::State(State::Playing)))
                &&& final(self).gen_next_id == old(self).gen_next_id + 1
                &&& final(self).queue_cursor == Some(index)
                &&& final(self).playing@ == Map::<u64, Playback<K>>::empty().insert(
                    (old(self).gen_next_id + 1) as u64,
                    (Playback { flow_state: State::Playing, ..Playback::spec_new(audio, handle) }),
                )
            },
    {
        if index >= self.queue.len() {
            return None;
        }
        self.playing.clear();
        self.queue_cursor = Some(index);
        self.gen_next_id = self.gen_next_id + 1;
        let id = self.gen_next_id;
        let mut playback = Playback::new(audio, handle);
        let event = match playback.set_state(State::Playing) {
            Some(event) => event,
            None => Event::State(State::Playing),
        };
        self.playing.insert(id, playback);
        Some((id, event))
    }

    /// The index of the item before the cursor; the first without a cursor or
    /// at the front.
    pub fn previous_index(&self) -> (i: usize)
        ensures
            i == self.spec_previous_index(),
    {
        match self.queue_cursor {
            Some(c) => if c > 0 {
                c - 1
            } else {
                0
            },
            None => 0,
        }
    }

    /// Plays the item before the cursor.
    pub fn play_previous_from_queue(&mut self, audio: dynam::Audio, handle: Option<K>) -> (r:
        Option<(u64, Event)>)
        requires
            old(self).wf(),
            old(self).gen_next_id < u64::MAX,
            handle matches Some(h) ==> h.valid(),
        ensures
            final(self).wf(),
            final(self).queue@ == old(self).queue@,
            old(self).queue@.len() == 0 ==> {
                &&& r is None
                &&& final(self).playing@ == old(self).playing@
                &&& final(self).gen_next_id == old(self).gen_next_id
                &&& final(self).queue_cursor == old(self).queue_cursor
            },
            old(self).queue@.len() > 0 ==> {
                &&& r == Some(((old(self).gen_next_id + 1) as u64, Event::State(State::Playing)))
                &&& final(self).gen_next_id == old(self).gen_next_id + 1
                &&& final(self).queue_cursor == Some(old(self).spec_previous_index())
                &&& final(self).playing@ == Map::<u64, Playback<K>>::empty().insert(
                    (old(self).gen_next_id + 1) as u64,
                    (Playback { flow_state: State::Playing, ..Playback::spec_new(audio, handle) }),
                )
            },
    {
        let index = self.previous_index();
        self.play_from_queue(index, audio, handle)
    }

    /// The index of the item behind the cursor; the first without a cursor.
    pub fn next_index(&self) -> (i: usize)
        requires
            self.wf(),
        ensures
            i == self.spec_next_index(),
    {
        let len: usize = self.queue.len();
        match self.queue_cursor {
            Some(c) => {
                assert(c < len);
                c + 1
            },
            None => 0,
        }
    }

    /// Whether the item behind the cursor lies behind the end of the queue, so
    /// that the queue wants one more item before it can go on.
    pub fn needs_autofill(&self) -> (b: bool)
        requires
            self.wf(),
        ensures
            b == (self.spec_next_index() >= self.queue@.len()),
    {
        self.next_index() >= self.queue.len()
    }

    /// Plays the item behind the cursor. At the end of the queue the item
    /// `fill`, if there is one, is appended first and then played; where the
    /// queue has an item behind the cursor `fill` is dropped.
    pub fn play_next_from_queue(
        &mut self,
        fill: Option<A>,
        audio: dynam::Audio,
        handle: Option<K>,
    ) -> (r: Option<(u64, Event)>)
        requires
            old(self).wf(),
            old(self).gen_next_id < u64::MAX,
            handle matches Some(h) ==> h.valid(),
        ensures
            final(self).wf(),
            final(self).queue@ == match fill {
                Some(item) if old(self).spec_next_index() >= old(self).queue@.len() => old(self).queue@.push(item),
                _ => old(self).queue@,
            },
            old(self).spec_next_index() >= final(self).queue@.len() ==> {
                &&& r is None
                &&& final(self).playing@ == old(self).playing@
                &&& final(self).gen_next_id == old(self).gen_next_id
                &&& final(self).queue_cursor == old(self).queue_cursor
            },
            old(self).spec_next_index() < final(self).queue@.len() ==> {
                &&& r == Some(((old(self).gen_next_id + 1) as u64, Event::State(State::Playing)))
                &&& final(self).gen_next_id == old(self).gen_next_id + 1
                &&& final(self).queue_cursor == Some(old(self).spec_next_index() as usize)
                &&& final(self).playing@ == Map::<u64, Playback<K>>::empty().insert(
                    (old(self).gen_next_id + 1) as u64,
                    (Playback { flow_state: State::Playing, ..Playback::spec_new(audio, handle) }),
                )
            },
    {
        let index = self.next_index();
        if index >= self.queue.len() {
            match fill {
                Some(item) => {
                    self.queue.push(item);
                },
                None => {},
            }
        }
        self.play_from_queue(index, audio, handle)
    }

    /// Decides what an event of the playback `id` asks for. The natural end
    /// of the output asks for the next item, an error of the output for a
    /// report; a playback that has stopped leaves the playing ones.
    pub fn handle(&mut self, id: u64, event: Event) -> (r: Reaction)
        requires
            old(self).wf(),
        ensures
            final(self).wf(),
            final(self).queue@ == old(self).queue@,
            final(self).queue_cursor == old(self).queue_cursor,
            final(self).gen_next_id == old(self).gen_next_id,
            final(self).playing@ == if event == Event::State(State::Stopped) {
                old(self).playing@.remove(id)
            } else {
                old(self).playing@
            },
            r == match event {
                Event::Output(crate::player::output::Event::End) => Reaction::PlayNext,
                Event::Output(crate::player::output::Event::Error(text)) => Reaction::Report(text),
                _ => Reaction::Nothing,
            },
    {
        match event {
            Event::Output(crate::player::output::Event::End) => Reaction::PlayNext,
            Event::Output(crate::player::output::Event::Error(text)) => Reaction::Report(text),
            Event::State(State::Stopped) => {
                let _ = self.playing.remove(&id);
                Reaction::Nothing
            },
            _ => Reaction::Nothing,
        }
    }

    /// The number of items in the queue.
    pub fn len(&self) -> (n: usize)
        ensures
            n == self.queue@.len(),
    {
        self.queue.len()
    }

    /// The items of the queue, first to last.
    pub fn contents(&self) -> (items: &Vec<A>)
        ensures
            items@ == self.queue@,
    {
        &self.queue
    }

    /// Replaces the whole queue; the cursor is dropped.
    pub fn set_contents(&mut self, new: Vec<A>)
        requires
            old(self).wf(),
        ensures
            final(self).wf(),
            final(self).queue@ == new@,
            final(self).queue_cursor is None,
            final(self).playing@ == old(self).playing@,
            final(self).gen_next_id == old(self).gen_next_id,
    {
        self.queue = new;
        self.queue_cursor = None;
    }

    /// Puts `audio` in front of the item at `position`, or behind the last
    /// item where `position` is the length. The cursor follows its item.
    pub fn insert(&mut self, position: usize, audio: Vec<A>) -> (r: Result<(), PlaylistError>)
        requires
            old(self).wf(),
            old(self).queue@.len() + audio@.len() <= usize::MAX,
        ensures
            final(self).wf(),
            final(self).playing@ == old(self).playing@,
            final(self).gen_next_id == old(self).gen_next_id,
            r is Ok <==> position <= old(self).queue@.len(),
            r matches Err(e) ==> e == PlaylistError::IndexOutOfBounds && final(self).queue@ == old(self).queue@ && final(self).queue_cursor == old(self).queue_cursor,
            r is Ok ==> {
                &&& final(self).queue@ == old(self).queue@.subrange(0, position as int) + audio@
                    + old(self).queue@.subrange(position as int, old(self).queue@.len() as int)
                &&& final(self).queue_cursor == cursor_after_insert(
                    old(self).queue_cursor,
                    position as int,
                    audio@.len() as int,
                )
                &&& old(self).queue_cursor matches Some(c) ==> final(self).queue@[final(self).queue_cursor->0 as int] == old(self).queue@[c as int]
            },
    {
        if position > self.queue.len() {
            return Err(PlaylistError::IndexOutOfBounds);
        }
        let count: usize = audio.len();
        match self.queue_cursor {
            Some(cur) => {
                if position <= cur {
                    self.queue_cursor = Some(cur + count);
                }
            },
            None => {},
        }
        let mut audio = audio;
        let mut tail = self.queue.split_off(position);
        self.queue.append(&mut audio);
        self.queue.append(&mut tail);
        Ok(())
    }

    /// Takes the items `start..end` out of the queue. The range has to end
    /// before the last item. The cursor follows its item; if that item leaves,
    /// the cursor stands on the item that follows the gap.
    pub fn remove(&mut self, start: usize, end: usize) -> (r: Result<(), PlaylistError>)
        requires
            old(self).wf(),
            start <= end,
        ensures
            final(self).wf(),
            final(self).playing@ == old(self).playing@,
            final(self).gen_next_id == old(self).gen_next_id,
            r is Ok <==> end < old(self).queue@.len(),
            r matches Err(e) ==> e == PlaylistError::IndexOutOfBounds && final(self).queue@ == old(self).queue@ && final(self).queue_cursor == old(self).queue_cursor,
            r is Ok ==> {
                &&& final(self).queue@ == old(self).queue@.subrange(0, start as int) + old(self).queue@.subrange(end as int, old(self).queue@.len() as int)
                &&& final(self).queue_cursor == cursor_after_remove(
                    old(self).queue_cursor,
                    start as int,
                    end as int,
                )
                &&& old(self).queue_cursor matches Some(c) ==> (c < start || c >= end) ==> final(self).queue@[final(self).queue_cursor->0 as int] == old(self).queue@[c as int]
            },
    {
        if end >= self.queue.len() {
            return Err(PlaylistError::IndexOutOfBounds);
        }
        match self.queue_cursor {
            Some(cur) => {
                if cur >= end {
                    self.queue_cursor = Some(cur - (end - start));
                } else if cur >= start {
                    self.queue_cursor = Some(start);
                }
            },
            None => {},
        }
        let mut tail = self.queue.split_off(end);
        self.queue.truncate(start);
        self.queue.append(&mut tail);
        Ok(())
    }

    /// Reorders the whole queue: place `i` gets the item from index `from[i]`.
    /// The list has to name every index once. The cursor follows its item.
    pub fn move_all(&mut self, from: &Vec<usize>) -> (r: Result<(), PlaylistError>)
        requires
            old(self).wf(),
        ensures
            final(self).wf(),
            final(self).playing@ == old(self).playing@,
            final(self).gen_next_id == old(self).gen_next_id,
            match r {
                Ok(()) => {
                    &&& is_permutation(from@, old(self).queue@.len())
                    &&& final(self).queue@ == permuted(old(self).queue@, from@)
                    &&& match old(self).queue_cursor {
                        Some(c) => final(self).queue_cursor matches Some(d) && from@[d as int] == c
                            && final(self).queue@[d as int] == old(self).queue@[c as int],
                        None => final(self).queue_cursor is None,
                    }
                },
                Err(e) => {
                    &&& Err::<(), PlaylistError>(e) == spec_check_move(
                        from@,
                        old(self).queue@.len(),
                    )
                    &&& final(self).queue@ == old(self).queue@
                    &&& final(self).queue_cursor == old(self).queue_cursor
                },
            },
    {
        match check_move(from, self.queue.len()) {
            Ok(()) => {},
            Err(e) => {
                return Err(e);
            },
        }
        match self.queue_cursor {
            Some(cur) => {
                proof {
                    lemma_permutation_onto(from@, cur as int);
                }
                self.queue_cursor = find_position(from, cur);
            },
            None => {},
        }
        let mut items: Vec<A> = Vec::new();
        core::mem::swap(&mut items, &mut self.queue);
        self.queue = permute(items, from);
        Ok(())
    }

    /// Moves the items `start..end` in front of the item that stands at `to`.
    /// With `to` inside the range, its end included, nothing moves. The cursor
    /// follows its item.
    pub fn splice(&mut self, start: usize, end: usize, to: usize) -> (r: Result<
        (),
        PlaylistError,
    >)
        requires
            old(self).wf(),
            start <= end,
        ensures
            final(self).wf(),
            final(self).playing@ == old(self).playing@,
            final(self).gen_next_id == old(self).gen_next_id,
            r is Ok <==> end <= old(self).queue@.len() && to < old(self).queue@.len(),
            r matches Err(e) ==> e == PlaylistError::IndexOutOfBounds && final(self).queue@ == old(self).queue@ && final(self).queue_cursor == old(self).queue_cursor,
            r is Ok && start <= to < end ==> final(self).queue@ == old(self).queue@ && final(self).queue_cursor == old(self).queue_cursor,
            r is Ok && !(start <= to < end) ==> {
                &&& final(self).queue@ == permuted(
                    old(self).queue@,
                    spec_splice_order(
                        old(self).queue@.len(),
                        start as int,
                        end as int,
                        to as int,
                    ),
                )
                &&& match old(self).queue_cursor {
                    Some(c) => final(self).queue_cursor matches Some(d) && final(self).queue@[d as int] == old(self).queue@[c as int],
                    None => final(self).queue_cursor is None,
                }
            },
    {
        let len: usize = self.queue.len();
        if end > len || to >= len {
            return Err(PlaylistError::IndexOutOfBounds);
        }
        if start <= to && to < end {
            return Ok(());
        }
        let order = splice_order(len, start, end, to);
        let moved = self.move_all(&order);
        Ok(())
    }

    /// Puts the queue in a random order. The cursor follows its item.
    pub fn shuffle(&mut self)
        requires
            old(self).wf(),
        ensures
            final(self).wf(),
            final(self).playing@ == old(self).playing@,
            final(self).gen_next_id == old(self).gen_next_id,
            exists|order: Seq<usize>|
                {
                    &&& is_permutation(order, old(self).queue@.len())
                    &&& final(self).queue@ == permuted(old(self).queue@, order)
                },
            match old(self).queue_cursor {
                Some(c) => final(self).queue_cursor matches Some(d) && final(self).queue@[d as int]
                    == old(self).queue@[c as int],
                None => final(self).queue_cursor is None,
            },
    {
        let order = shuffle_order(self.queue.len());
        let moved = self.move_all(&order);
    }
}

} // verus!
