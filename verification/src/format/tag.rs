//! The tag of a file: a list of frames, each an id and a content, as ID3
//! has them.

use vstd::prelude::*;

verus! {

/// The frames that the player reads or writes, by their meaning. The doc of
/// each gives its four-letter ID3 name.
#[derive(Copy, Clone, Debug, PartialEq, Eq, Structural)]
pub enum FrameId {
    /// `TALB`
    Album,
    /// `TPE2`
    AlbumArtist,
    /// `TPE1`
    Artist,
    /// `TDRL`
    ReleaseTime,
    /// `TPOS`
    Disc,
    /// `TCON`
    Genre,
    /// `TSSE`
    Software,
    /// `TIT2`
    Title,
    /// `TRCK`
    Track,
    /// `POPM`
    Popularimeter,
    /// `APIC`
    Picture,
}

/// What a picture shows, in the order of the ID3 picture types.
#[derive(Copy, Clone, Debug, PartialEq, Eq, Structural)]
pub enum PictureType {
    Other,
    Icon,
    OtherIcon,
    CoverFront,
    CoverBack,
    Leaflet,
    Media,
    LeadArtist,
    Artist,
    Conductor,
    Band,
    Composer,
    Lyricist,
    RecordingLocation,
    DuringRecording,
    DuringPerformance,
    ScreenCapture,
    BrightFish,
    Illustration,
    BandLogo,
    PublisherLogo,
}

/// The content of a frame.
#[derive(Clone, Debug, PartialEq, Eq)]
pub enum Content {
    Text(String),
    Unknown(Vec<u8>),
    Picture { mime_type: String, picture_type: PictureType, description: String, data: Vec<u8> },
}

#[derive(Clone, Debug, PartialEq, Eq)]
pub struct Frame {
    pub id: FrameId,
    pub content: Content,
}

/// The frames of a file, in the order in which they were added.
#[derive(Clone, Debug, PartialEq, Eq)]
pub struct Tag {
    pub frames: Vec<Frame>,
}

/// The index of the first frame with the id at or after `from`, or the number
/// of frames if there is none.
pub open spec fn spec_find(frames: Seq<Frame>, id: FrameId, from: int) -> int
    decreases frames.len() - from,
{
    if from < 0 || from >= frames.len() {
        frames.len() as int
    } else if frames[from].id == id {
        from
    } else {
        spec_find(frames, id, from + 1)
    }
}

/// The text of the first frame with the id, if its content is text.
pub open spec fn spec_text(frames: Seq<Frame>, id: FrameId) -> Option<Seq<char>> {
    let i = spec_find(frames, id, 0);
    if i < frames.len() {
        match frames[i].content {
            Content::Text(text) => Some(text@),
            _ => None,
        }
    } else {
        None
    }
}

impl Tag {
    /// A tag without frames.
    pub fn new() -> (t: Tag)
        ensures
            t.frames@ == Seq::<Frame>::empty(),
    {
        Tag { frames: Vec::new() }
    }

    /// Adds a frame behind the others.
    pub fn push(&mut self, frame: Frame)
        ensures
            final(self).frames@ == old(self).frames@.push(frame),
    {
        self.frames.push(frame);
    }

    /// The first frame with the id.
    pub fn get(&self, id: FrameId) -> (r: Option<&Frame>)
        ensures
            match r {
                Some(frame) => spec_find(self.frames@, id, 0) < self.frames@.len() && *frame
                    == self.frames@[spec_find(self.frames@, id, 0)],
                None => spec_find(self.frames@, id, 0) == self.frames@.len(),
            },
    {
        let mut i: usize = 0;
        while i < self.frames.len()
            invariant
                i <= self.frames@.len(),
                spec_find(self.frames@, id, 0) == spec_find(self.frames@, id, i as int),
            decreases self.frames@.len() - i,
        {
            if self.frames[i].id == id {
                return Some(&self.frames[i]);
            }
            i += 1;
        }
        None
    }

    /// The text of the first frame with the id, if its content is text.
    pub fn text(&self, id: FrameId) -> (r: Option<&String>)
        ensures
            match r {
                Some(text) => spec_text(self.frames@, id) == Some(text@),
                None => spec_text(self.frames@, id) is None,
            },
    {
        match self.get(id) {
            Some(frame) => match &frame.content {
                Content::Text(text) => Some(text),
                _ => None,
            },
            None => None,
        }
    }
}

/// The texts of all frames with the id, in their order; a frame whose content
/// is no text is passed over.
pub open spec fn spec_texts(frames: Seq<Frame>, id: FrameId) -> Seq<Seq<char>>
    decreases frames.len(),
{
    if frames.len() == 0 {
        Seq::empty()
    } else {
        let before = spec_texts(frames.drop_last(), id);
        match frames.last().content {
            Content::Text(text) if frames.last().id == id => before.push(text@),
            _ => before,
        }
    }
}

impl Tag {
    /// The texts of all frames with the id.
    pub fn texts(&self, id: FrameId) -> (r: Vec<&String>)
        ensures
            r@.len() == spec_texts(self.frames@, id).len(),
            forall|i: int| 0 <= i < r@.len() ==> (#[trigger] r@[i])@ == spec_texts(self.frames@, id)[i],
    {
        let mut out: Vec<&String> = Vec::new();
        let mut i: usize = 0;
        assert(self.frames@.take(0) =~= Seq::<Frame>::empty());
        while i < self.frames.len()
            invariant
                i <= self.frames@.len(),
                out@.len() == spec_texts(self.frames@.take(i as int), id).len(),
                forall|k: int|
                    0 <= k < out@.len() ==> (#[trigger] out@[k])@ == spec_texts(
                        self.frames@.take(i as int),
                        id,
                    )[k],
            decreases self.frames@.len() - i,
        {
            proof {
                assert(self.frames@.take(i + 1).drop_last() =~= self.frames@.take(i as int));
                assert(self.frames@.take(i + 1).last() == self.frames@[i as int]);
            }
            let frame = &self.frames[i];
            if frame.id == id {
                match &frame.content {
                    Content::Text(text) => {
                        out.push(text);
                    },
                    _ => {},
                }
            }
            i += 1;
        }
        assert(self.frames@.take(self.frames@.len() as int) =~= self.frames@);
        out
    }
}

} // verus!
