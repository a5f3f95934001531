//! The frame index of an MPEG audio stream: where each frame starts, how long
//! it is and which samples it holds.

use vstd::prelude::*;
use crate::stream::Cursor;

verus! {

#[derive(Copy, Clone, Debug, PartialEq, Eq, Structural)]
pub enum MpegLayer {
    L1,
    L2,
    L3,
}

#[derive(Copy, Clone, Debug, PartialEq, Eq, Structural)]
pub enum MpegVersion {
    V1,
    V2,
    V25,
}

#[derive(Copy, Clone, Debug, PartialEq, Eq, Structural)]
pub enum Error {
    /// No frame sync was found, or no frame follows it.
    MissingSync,
    /// The bitrate table has no entry for this combination.
    UnknownBitrate { index: u8, layer: MpegLayer, version: MpegVersion },
}

impl Error {
    /// A short name for the kind of failure.
    pub fn description(&self) -> (s: &'static str)
        ensures
            s@ == "Indexing error"@,
    {
        "Indexing error"
    }
}

/// The column of the bitrate table that a version and layer select. MPEG 2.5
/// has no column of its own.
pub open spec fn bitrate_column(version: MpegVersion, layer: MpegLayer) -> Option<Seq<int>> {
    match (version, layer) {
        (MpegVersion::V1, MpegLayer::L1) => Some(
            seq![32int, 64, 96, 128, 160, 192, 224, 256, 288, 320, 352, 384, 416, 448],
        ),
        (MpegVersion::V1, MpegLayer::L2) => Some(
            seq![32int, 48, 56, 64, 80, 96, 112, 128, 160, 192, 224, 256, 320, 384],
        ),
        (MpegVersion::V1, MpegLayer::L3) => Some(
            seq![32int, 40, 48, 56, 64, 80, 96, 112, 128, 160, 192, 224, 256, 320],
        ),
        (MpegVersion::V2, MpegLayer::L1) => Some(
            seq![32int, 48, 56, 64, 80, 96, 112, 128, 144, 160, 176, 192, 224, 256],
        ),
        (MpegVersion::V2, _) => Some(
            seq![8int, 16, 24, 32, 40, 48, 56, 64, 80, 96, 112, 128, 144, 160],
        ),
        (MpegVersion::V25, _) => None,
    }
}

/// What the four-bit bitrate index of a frame header stands for, in bits per
/// second: `Ok(None)` for the free-format and the forbidden index, an error
/// where the table has no entry.
pub open spec fn spec_find_bitrate(index: u8, version: MpegVersion, layer: MpegLayer) -> Result<
    Option<u32>,
    Error,
> {
    if index == 0 || index == 15 {
        Ok(None)
    } else if index > 15 {
        Err(Error::UnknownBitrate { index, layer, version })
    } else {
        match bitrate_column(version, layer) {
            Some(column) => Ok(Some((column[index - 1] * 1000) as u32)),
            None => if index == 1 {
                Ok(Some(32000u32))
            } else {
                Err(Error::UnknownBitrate { index, layer, version })
            },
        }
    }
}

/// Every bitrate in the table lies between 8 and 448 kbit/s, and layer I
/// starts at 32 kbit/s.
pub proof fn lemma_bitrate_bounds(index: u8, version: MpegVersion, layer: MpegLayer)
    ensures
        spec_find_bitrate(index, version, layer) matches Ok(Some(rate)) ==> 8000 <= rate <= 448000
            && (layer == MpegLayer::L1 ==> 32000 <= rate),
{
    if 1 <= index <= 14 {
        match bitrate_column(version, layer) {
            Some(column) => {
                assert(column.len() == 14);
                assert(forall|i: int| 0 <= i < 14 ==> 8 <= #[trigger] column[i] <= 448);
                assert(layer == MpegLayer::L1 ==> forall|i: int|
                    0 <= i < 14 ==> 32 <= #[trigger] column[i]);
                let k = column[index - 1];
                assert(8 <= k <= 448);
            },
            None => {},
        }
    }
}

/// Looks a bitrate index up in the table of its version and layer.
pub fn find_bitrate(index: u8, version: MpegVersion, layer: MpegLayer) -> (r: Result<
    Option<u32>,
    Error,
>)
    ensures
        r == spec_find_bitrate(index, version, layer),
{
    if index == 0 || index == 15 {
        return Ok(None);
    }
    if index > 15 {
        return Err(Error::UnknownBitrate { index, layer, version });
    }
    let kbps: u32 = match (version, layer) {
        (MpegVersion::V1, MpegLayer::L1) => 32 * (index as u32),
        (MpegVersion::V1, MpegLayer::L2) => match index {
            1 => 32,
            2 => 48,
            3 => 56,
            4 => 64,
            5 => 80,
            6 => 96,
            7 => 112,
            8 => 128,
            9 => 160,
            10 => 192,
            11 => 224,
            12 => 256,
            13 => 320,
            _ => 384,
        },
        (MpegVersion::V1, MpegLayer::L3) => match index {
            1 => 32,
            2 => 40,
            3 => 48,
            4 => 56,
            5 => 64,
            6 => 80,
            7 => 96,
            8 => 112,
            9 => 128,
            10 => 160,
            11 => 192,
            12 => 224,
            13 => 256,
            _ => 320,
        },
        (MpegVersion::V2, MpegLayer::L1) => match index {
            1 => 32,
            2 => 48,
            3 => 56,
            4 => 64,
            5 => 80,
            6 => 96,
            7 => 112,
            8 => 128,
            9 => 144,
            10 => 160,
            11 => 176,
            12 => 192,
            13 => 224,
            _ => 256,
        },
        (MpegVersion::V2, _) => if index <= 8 {
            8 * (index as u32)
        } else {
            16 * (index as u32) - 64
        },
        (MpegVersion::V25, _) => {
            if index == 1 {
                32
            } else {
                return Err(Error::UnknownBitrate { index, layer, version });
            }
        },
    };
    Ok(Some(kbps * 1000))
}

/// The fields of a four-byte frame header that the index needs.
#[derive(Copy, Clone, Debug, PartialEq, Eq, Structural)]
pub struct Header {
    pub version: MpegVersion,
    pub layer: MpegLayer,
    /// Bits per second.
    pub bitrate: u32,
    /// Samples per second.
    pub sample_rate: u32,
    pub padded: bool,
    /// The divisor for sample counts: 2 for stereo and dual channel, 1 for
    /// joint stereo and mono.
    pub channels: u16,
}

pub open spec fn spec_version(bits: u8) -> Option<MpegVersion> {
    if bits == 0 {
        Some(MpegVersion::V25)
    } else if bits == 2 {
        Some(MpegVersion::V2)
    } else if bits == 3 {
        Some(MpegVersion::V1)
    } else {
        None
    }
}

pub open spec fn spec_layer(bits: u8) -> Option<MpegLayer> {
    if bits == 1 {
        Some(MpegLayer::L3)
    } else if bits == 2 {
        Some(MpegLayer::L2)
    } else if bits == 3 {
        Some(MpegLayer::L1)
    } else {
        None
    }
}

/// The sample rate that a two-bit index selects for a version; index 3 is
/// reserved.
pub open spec fn spec_sample_rate(bits: u8, version: MpegVersion) -> Option<u32> {
    let base: Option<u32> = if bits == 0 {
        Some(44100u32)
    } else if bits == 1 {
        Some(48000u32)
    } else if bits == 2 {
        Some(32000u32)
    } else {
        None
    };
    match base {
        Some(rate) => Some(
            match version {
                MpegVersion::V1 => rate,
                MpegVersion::V2 => (rate / 2) as u32,
                MpegVersion::V25 => (rate / 4) as u32,
            },
        ),
        None => None,
    }
}

/// Whether the two bytes open a frame: eleven set bits.
pub open spec fn sync_bytes(b0: u8, b1: u8) -> bool {
    b0 == 0xff && b1 & 0xe0 == 0xe0
}

/// The header that four bytes encode, if they encode one that can be indexed.
pub open spec fn spec_parse_header(b0: u8, b1: u8, b2: u8, b3: u8) -> Option<Header> {
    if !sync_bytes(b0, b1) {
        None
    } else {
        match (spec_version((b1 >> 3) & 3), spec_layer((b1 >> 1) & 3)) {
            (Some(version), Some(layer)) => match (
                spec_find_bitrate((b2 >> 4) & 15, version, layer),
                spec_sample_rate((b2 >> 2) & 3, version),
            ) {
                (Ok(Some(bitrate)), Some(sample_rate)) => Some(
                    Header {
                        version,
                        layer,
                        bitrate,
                        sample_rate,
                        padded: (b2 >> 1) & 1 == 1,
                        channels: if (b3 >> 6) & 1 == 1 {
                            1
                        } else {
                            2
                        },
                    },
                ),
                _ => None,
            },
            _ => None,
        }
    }
}

impl Header {
    /// The ranges that every header of the format keeps.
    pub open spec fn wf(&self) -> bool {
        &&& 8000 <= self.bitrate <= 448000
        &&& self.layer == MpegLayer::L1 ==> 32000 <= self.bitrate
        &&& 8000 <= self.sample_rate <= 48000
        &&& self.channels == 1 || self.channels == 2
    }

    /// The samples that one frame holds over all channels.
    pub open spec fn spec_samples(&self) -> int {
        if self.layer == MpegLayer::L1 {
            384
        } else {
            1152
        }
    }

    /// The length of the frame in bytes, header included.
    pub open spec fn spec_frame_length(&self) -> int {
        if self.layer == MpegLayer::L1 {
            (12 * self.bitrate / self.sample_rate as int + if self.padded {
                4int
            } else {
                0int
            }) * 4
        } else {
            144 * self.bitrate / self.sample_rate as int + if self.padded {
                1int
            } else {
                0int
            }
        }
    }

    /// A frame is at least 24 and at most 8065 bytes long.
    pub proof fn lemma_frame_length_bounds(&self)
        requires
            self.wf(),
        ensures
            24 <= self.spec_frame_length() <= 8065,
    {
        let b = self.bitrate as int;
        let s = self.sample_rate as int;
        if self.layer == MpegLayer::L1 {
            assert(6 <= 12 * b / s <= 672) by (nonlinear_arith)
                requires
                    32000 <= b <= 448000,
                    8000 <= s <= 48000,
            ;
        } else {
            assert(24 <= 144 * b / s <= 8064) by (nonlinear_arith)
                requires
                    8000 <= b <= 448000,
                    8000 <= s <= 48000,
            ;
        }
    }

    /// Decodes a frame header.
    pub fn parse(bytes: [u8; 4]) -> (r: Option<Header>)
        ensures
            r == spec_parse_header(bytes[0], bytes[1], bytes[2], bytes[3]),
            r matches Some(h) ==> h.wf(),
    {
        let b1: u8 = bytes[1];
        let b2: u8 = bytes[2];
        let b3: u8 = bytes[3];
        if bytes[0] != 0xff || b1 & 0xe0 != 0xe0 {
            return None;
        }
        let version = match (b1 >> 3) & 3 {
            0 => MpegVersion::V25,
            2 => MpegVersion::V2,
            3 => MpegVersion::V1,
            _ => { return None; },
        };
        let layer = match (b1 >> 1) & 3 {
            1 => MpegLayer::L3,
            2 => MpegLayer::L2,
            3 => MpegLayer::L1,
            _ => { return None; },
        };
        let bitrate: u32 = match find_bitrate((b2 >> 4) & 15, version, layer) {
            Ok(Some(rate)) => rate,
            _ => { return None; },
        };
        proof {
            lemma_bitrate_bounds((b2 >> 4) & 15, version, layer);
        }
        let base: u32 = match (b2 >> 2) & 3 {
            0 => 44100,
            1 => 48000,
            2 => 32000,
            _ => { return None; },
        };
        let sample_rate: u32 = match version {
            MpegVersion::V1 => base,
            MpegVersion::V2 => base / 2,
            MpegVersion::V25 => base / 4,
        };
        let padded = (b2 >> 1) & 1 == 1;
        let channels: u16 = if (b3 >> 6) & 1 == 1 { 1 } else { 2 };
        Some(Header { version, layer, bitrate, sample_rate, padded, channels })
    }

    /// The samples that one frame holds over all channels.
    pub fn samples(&self) -> (n: u16)
        ensures
            n == self.spec_samples(),
    {
        match self.layer {
            MpegLayer::L1 => 384,
            _ => 1152,
        }
    }

    /// The length of the frame in bytes, header included.
    pub fn frame_length(&self) -> (n: u32)
        requires
            self.wf(),
        ensures
            n == self.spec_frame_length(),
    {
        proof {
            self.lemma_frame_length_bounds();
            let b = self.bitrate as int;
            assert(12 * b <= 12 * 448000 && 144 * b <= 144 * 448000);
        }
        match self.layer {
            MpegLayer::L1 => {
                let padding: u32 = if self.padded { 4 } else { 0 };
                (12 * self.bitrate / self.sample_rate + padding) * 4
            },
            _ => {
                let padding: u32 = if self.padded { 1 } else { 0 };
                144 * self.bitrate / self.sample_rate + padding
            },
        }
    }
}

/// Whether a frame sync starts at offset `i` of `data`.
pub open spec fn is_sync(data: Seq<u8>, i: int) -> bool {
    0 <= i && i + 1 < data.len() && sync_bytes(data[i], data[i + 1])
}

/// Moves the stream to the first frame sync at or after its position. Where
/// there is none, the stream is left at its end, or where it was if that lies
/// beyond the end.
pub fn find_stream(input: &mut Cursor) -> (r: Result<(), Error>)
    ensures
        final(input).data@ == old(input).data@,
        match r {
            Ok(()) => {
                &&& old(input).pos <= final(input).pos
                &&& is_sync(old(input).data@, final(input).pos as int)
                &&& forall|j: int|
                    old(input).pos <= j < final(input).pos ==> !is_sync(old(input).data@, j)
            },
            Err(e) => {
                &&& e == Error::MissingSync
                &&& forall|j: int| old(input).pos <= j ==> !is_sync(old(input).data@, j)
                &&& final(input).pos == if old(input).pos <= old(input).data@.len() {
                    old(input).data@.len() as u64
                } else {
                    old(input).pos
                }
            },
        },
{
    let len: usize = input.data.len();
    if input.pos >= len as u64 {
        return Err(Error::MissingSync);
    }
    let start: usize = input.pos as usize;
    let mut i: usize = start;
    while i + 1 < len
        invariant
            start <= i < len,
            len == input.data@.len(),
            input.data@ == old(input).data@,
            input.pos == old(input).pos,
            start == old(input).pos,
            forall|j: int| start <= j < i ==> !is_sync(input.data@, j),
        decreases len - i,
    {
        if input.data[i] == 0xff && input.data[i + 1] & 0xe0 == 0xe0 {
            input.pos = i as u64;
            return Ok(());
        }
        i += 1;
    }
    input.pos = len as u64;
    Err(Error::MissingSync)
}

/// One frame of the stream.
#[derive(Copy, Clone, Debug, PartialEq, Eq, Structural)]
pub struct Frame {
    /// Absolute byte offset in the stream.
    pub offset: u64,
    /// Length of the frame in bytes.
    pub length: u32,
    /// The number of samples per channel.
    pub num_samples: u16,
    /// The number of samples per channel that precede this frame.
    pub sample_offset: u64,
}

/// A frame together with the offset and the count of samples, over all
/// channels, behind it.
pub ghost struct Step {
    pub frame: Frame,
    pub next: int,
    pub samples: int,
}

/// The frame whose header stands at `pos`, after `samples` samples over all
/// channels, with the offset and the sample count that follow it. There is none where fewer
/// than four bytes are left, where they are no header, or where the next
/// offset or count would not fit in 64 bits.
pub open spec fn spec_frame_at(data: Seq<u8>, pos: int, samples: int) -> Option<Step> {
    if 0 <= pos && pos + 4 <= data.len() {
        match spec_parse_header(data[pos], data[pos + 1], data[pos + 2], data[pos + 3]) {
            Some(h) => if pos + h.spec_frame_length() <= u64::MAX && samples + h.spec_samples()
                <= u64::MAX && h.spec_frame_length() > 0 {
                Some(
                    Step {
                        frame: Frame {
                            offset: pos as u64,
                            length: h.spec_frame_length() as u32,
                            num_samples: (h.spec_samples() / h.channels as int) as u16,
                            sample_offset: (samples / h.channels as int) as u64,
                        },
                        next: pos + h.spec_frame_length(),
                        samples: samples + h.spec_samples(),
                    },
                )
            } else {
                None
            },
            None => None,
        }
    } else {
        None
    }
}

/// The frames that follow each other from `pos` on, each starting where the
/// one before it ends.
pub open spec fn spec_frames(data: Seq<u8>, pos: int, samples: int) -> Seq<Frame>
    decreases
            if pos <= data.len() {
                data.len() - pos + 1
            } else {
                0
            },
{
    let here = spec_frame_at(data, pos, samples);
    if here is Some {
        seq![here->0.frame] + spec_frames(data, here->0.next, here->0.samples)
    } else {
        Seq::empty()
    }
}

/// The offset behind the last of those frames, where indexing stops.
pub open spec fn spec_frames_end(data: Seq<u8>, pos: int, samples: int) -> int
    decreases
            if pos <= data.len() {
                data.len() - pos + 1
            } else {
                0
            },
{
    let here = spec_frame_at(data, pos, samples);
    if here is Some {
        spec_frames_end(data, here->0.next, here->0.samples)
    } else {
        pos
    }
}

/// The offsets and lengths of the frames of a stream.
pub struct FrameIndex {
    pub frames: Vec<Frame>,
}

/// Whether sample `nth` lies in `frame`: from its first sample up to its
/// last.
pub open spec fn covers(frame: Frame, nth: u64) -> bool {
    frame.sample_offset <= nth < frame.sample_offset + frame.num_samples
}

impl FrameIndex {
    /// The index has a frame, and each frame's samples end within 64 bits.
    pub open spec fn wf(&self) -> bool {
        &&& self.frames@.len() > 0
        &&& forall|i: int|
            0 <= i < self.frames@.len() ==> (#[trigger] self.frames@[i]).sample_offset
                + self.frames@[i].num_samples <= u64::MAX
    }

    /// Each frame starts at or after the sample at which the one before ends.
    pub open spec fn ordered(&self) -> bool {
        forall|i: int, j: int|
            0 <= i < j < self.frames@.len() ==> (#[trigger] self.frames@[i]).sample_offset
                + self.frames@[i].num_samples <= (#[trigger] self.frames@[j]).sample_offset
    }

    /// The frames follow each other without a gap from sample 0 on.
    pub open spec fn contiguous(&self) -> bool {
        &&& self.frames@.len() > 0
        &&& self.frames@[0].sample_offset == 0
        &&& forall|i: int|
            0 <= i < self.frames@.len() - 1 ==> (#[trigger] self.frames@[i + 1]).sample_offset
                == self.frames@[i].sample_offset + self.frames@[i].num_samples
    }

    /// The number of samples per channel in the whole stream: where the last
    /// frame ends.
    pub open spec fn spec_num_samples(&self) -> int {
        self.frames@.last().sample_offset + self.frames@.last().num_samples
    }

    /// In an index without gaps a later frame starts where the frames before
    /// it have ended.
    pub proof fn lemma_contiguous_pair(&self, i: int, j: int)
        requires
            self.contiguous(),
            0 <= i < j < self.frames@.len(),
        ensures
            self.frames@[i].sample_offset + self.frames@[i].num_samples
                <= self.frames@[j].sample_offset,
        decreases j - i,
    {
        assert(self.frames@[(j - 1) + 1].sample_offset == self.frames@[j - 1].sample_offset
            + self.frames@[j - 1].num_samples);
        if j > i + 1 {
            self.lemma_contiguous_pair(i, j - 1);
        }
    }

    /// An index without gaps is ordered.
    pub proof fn lemma_contiguous_ordered(&self)
        requires
            self.contiguous(),
        ensures
            self.ordered(),
    {
        assert forall|i: int, j: int| 0 <= i < j < self.frames@.len() implies (
        #[trigger] self.frames@[i]).sample_offset + self.frames@[i].num_samples <= (
        #[trigger] self.frames@[j]).sample_offset by {
            self.lemma_contiguous_pair(i, j);
        }
    }

    /// In an index without gaps every sample before the end of frame `k` lies
    /// in a frame.
    pub proof fn lemma_contiguous_covered(&self, nth: u64, k: int)
        requires
            self.contiguous(),
            0 <= k < self.frames@.len(),
            nth < self.frames@[k].sample_offset + self.frames@[k].num_samples,
        ensures
            exists|i: int| 0 <= i <= k && covers(#[trigger] self.frames@[i], nth),
        decreases k,
    {
        if self.frames@[k].sample_offset <= nth {
            assert(covers(self.frames@[k], nth));
        } else {
            assert(k > 0);
            assert(self.frames@[(k - 1) + 1].sample_offset == self.frames@[k - 1].sample_offset
                + self.frames@[k - 1].num_samples);
            self.lemma_contiguous_covered(nth, k - 1);
        }
    }

    /// In an ordered index no frame holds a sample at or behind the end of
    /// the last frame.
    pub proof fn lemma_ordered_bound(&self, nth: u64, i: int)
        requires
            self.ordered(),
            0 <= i < self.frames@.len(),
            covers(self.frames@[i], nth),
        ensures
            nth < self.spec_num_samples(),
    {
        let last = self.frames@.len() - 1;
        if i < last {
            assert(self.frames@[i].sample_offset + self.frames@[i].num_samples
                <= self.frames@[last].sample_offset);
        }
    }

    /// Indexes the stream from its first frame sync on, frame after frame,
    /// until the bytes at the expected offset are no frame header. The stream
    /// is left behind the last bytes that were looked at.
    pub fn read(input: &mut Cursor) -> (r: Result<FrameIndex, Error>)
        ensures
            final(input).data@ == old(input).data@,
            match r {
                Ok(index) => exists|start: int|
                    {
                        &&& old(input).pos <= start
                        &&& is_sync(old(input).data@, start)
                        &&& forall|j: int|
                            old(input).pos <= j < start ==> !is_sync(old(input).data@, j)
                        &&& index.frames@ == spec_frames(old(input).data@, start, 0)
                        &&& index.wf()
                        &&& final(input).pos == crate::stream::read_end(
                            old(input).data@,
                            spec_frames_end(old(input).data@, start, 0) as u64,
                            4,
                        )
                    },
                Err(e) => {
                    &&& e == Error::MissingSync
                    &&& forall|start: int|
                        old(input).pos <= start && is_sync(old(input).data@, start) && (forall|
                            j: int,
                        |
                            old(input).pos <= j < start ==> !is_sync(old(input).data@, j))
                            ==> spec_frames(old(input).data@, start, 0).len() == 0
                },
            },
    {
        match find_stream(input) {
            Ok(()) => {},
            Err(e) => {
                return Err(e);
            },
        }
        let ghost data = input.data@;
        let ghost start = input.pos as int;
        let mut sample_count: u64 = 0;
        let mut frames: Vec<Frame> = Vec::new();
        loop
            invariant_except_break
                frames@ + spec_frames(data, input.pos as int, sample_count as int) == spec_frames(
                    data,
                    start,
                    0,
                ),
                spec_frames_end(data, input.pos as int, sample_count as int) == spec_frames_end(
                    data,
                    start,
                    0,
                ),
            invariant
                input.data@ == data,
                forall|i: int|
                    0 <= i < frames@.len() ==> (#[trigger] frames@[i]).sample_offset
                        + frames@[i].num_samples <= u64::MAX,
            ensures
                frames@ == spec_frames(data, start, 0),
                input.pos == crate::stream::read_end(
                    data,
                    spec_frames_end(data, start, 0) as u64,
                    4,
                ),
            decreases
                    if input.pos <= data.len() {
                        data.len() - input.pos + 1
                    } else {
                        0
                    },
        {
            let header_offset: u64 = input.pos;
            let ghost before = frames@;
            let header = input.read(4);
            if header.len() < 4 {
                assert(spec_frame_at(data, header_offset as int, sample_count as int) is None);
                assert(frames@ + Seq::<Frame>::empty() =~= frames@);
                break ;
            }
            assert(header@[0] == data[header_offset as int]);
            assert(header@[1] == data[header_offset + 1]);
            assert(header@[2] == data[header_offset + 2]);
            assert(header@[3] == data[header_offset + 3]);
            let parsed = Header::parse([header[0], header[1], header[2], header[3]]);
            let h = match parsed {
                Some(h) => h,
                None => {
                    assert(frames@ + Seq::<Frame>::empty() =~= frames@);
                    break ;
                },
            };
            let frame_length: u32 = h.frame_length();
            let num_samples: u16 = h.samples();
            proof {
                h.lemma_frame_length_bounds();
            }
            if frame_length as u64 > u64::MAX - header_offset || num_samples as u64 > u64::MAX
                - sample_count {
                assert(frames@ + Seq::<Frame>::empty() =~= frames@);
                break ;
            }
            let frame = Frame {
                offset: header_offset,
                length: frame_length,
                num_samples: num_samples / h.channels,
                sample_offset: sample_count / (h.channels as u64),
            };
            let ghost rest = spec_frames(
                data,
                header_offset + frame_length,
                sample_count + num_samples,
            );
            assert(spec_frame_at(data, header_offset as int, sample_count as int) == Some(
                Step {
                    frame,
                    next: header_offset + frame_length,
                    samples: sample_count + num_samples,
                },
            ));
            assert((before + seq![frame]) + rest =~= before + (seq![frame] + rest));
            input.set_position(header_offset + frame_length as u64);
            frames.push(frame);
            assert(frames@ =~= before + seq![frame]);
            sample_count = sample_count + num_samples as u64;
        }
        if frames.len() == 0 {
            return Err(Error::MissingSync);
        }
        Ok(FrameIndex { frames })
    }

    /// The number of samples per channel in the whole stream: where the last
    /// frame ends.
    pub fn num_samples(&self) -> (n: u64)
        requires
            self.wf(),
        ensures
            n == self.spec_num_samples(),
    {
        let frame = &self.frames[self.frames.len() - 1];
        frame.sample_offset + frame.num_samples as u64
    }

    /// Searches, by bisection, the frame that holds sample `nth`. What is found
    /// holds it; in an ordered index nothing is found only where no frame
    /// holds it. In an index without gaps a frame is found for exactly the
    /// samples before the end of the stream.
    pub fn frame_for_sample(&self, nth_sample: u64) -> (r: Option<usize>)
        ensures
            r matches Some(i) ==> i < self.frames@.len() && covers(self.frames@[i as int], nth_sample),
            r is None && self.ordered() ==> forall|i: int|
                0 <= i < self.frames@.len() ==> !covers(#[trigger] self.frames@[i], nth_sample),
            self.ordered() && nth_sample >= self.spec_num_samples() ==> r is None,
            self.contiguous() ==> (r is Some <==> nth_sample < self.spec_num_samples()),
    {
        let mut low: usize = 0;
        let mut high: usize = self.frames.len();
        while low < high
            invariant
                low <= high <= self.frames@.len(),
                self.ordered() ==> forall|i: int|
                    0 <= i < low || high <= i < self.frames@.len() ==> !covers(
                        #[trigger] self.frames@[i],
                        nth_sample,
                    ),
            decreases high - low,
        {
            let mid: usize = low + (high - low) / 2;
            let frame = &self.frames[mid];
            if frame.sample_offset > nth_sample {
                high = mid;
            } else if frame.num_samples as u64 <= u64::MAX - frame.sample_offset
                && frame.sample_offset + (frame.num_samples as u64) <= nth_sample {
                low = mid + 1;
            } else {
                proof {
                    if self.contiguous() {
                        self.lemma_contiguous_ordered();
                    }
                    if self.ordered() {
                        self.lemma_ordered_bound(nth_sample, mid as int);
                    }
                }
                return Some(mid);
            }
        }
        proof {
            if self.contiguous() {
                self.lemma_contiguous_ordered();
                if nth_sample < self.spec_num_samples() {
                    self.lemma_contiguous_covered(nth_sample, self.frames@.len() - 1);
                }
            }
        }
        None
    }
}

} // verus!
