//! RIFF WAVE files: the chunks of the container, and the decoder of their
//! uncompressed samples.

use vstd::prelude::*;
use vstd::slice::slice_subrange;
use crate::audio::dynam;
use crate::audio::dynam::SampleKind;
use crate::audio::{Seek, SeekError, Seekable, Source};
use crate::stream::{Cursor, IoError};

verus! {

/// The byte order that the container declares.
#[derive(Copy, Clone, Debug, PartialEq, Eq, Structural)]
pub enum Endianness {
    Big,
    Little,
}

#[derive(Copy, Clone, Debug, PartialEq, Eq, Structural)]
pub enum Error {
    IO(IoError),
    /// The file is no WAVE file, or lacks a chunk, or its sizes disagree.
    FormatError,
    /// The sample format is known and not decoded.
    Unimplemented { endianness: Endianness, num_channels: u16, sample_size: u16 },
    /// The samples are compressed.
    Unsupported,
}

impl Error {
    /// A short name for the kind of failure.
    pub fn description(&self) -> (s: &'static str)
        ensures
            s@ == "Wave error"@,
    {
        "Wave error"
    }
}

/// The 16-bit number that two bytes hold, lowest first.
pub open spec fn le_u16(bytes: Seq<u8>) -> u16 {
    (bytes[0] + bytes[1] * 0x100) as u16
}

/// The 32-bit number that four bytes hold, lowest first.
pub open spec fn le_u32(bytes: Seq<u8>) -> u32 {
    (bytes[0] + bytes[1] * 0x100 + bytes[2] * 0x1_0000 + bytes[3] * 0x100_0000) as u32
}

/// The signed 16-bit number that two bytes hold in two's complement, lowest
/// first.
pub open spec fn le_i16(bytes: Seq<u8>) -> i16 {
    if le_u16(bytes) < 0x8000 {
        le_u16(bytes) as i16
    } else {
        (le_u16(bytes) - 0x1_0000) as i16
    }
}

/// `byteorder::LittleEndian::read_u16`: the number in the first two bytes,
/// lowest first. It panics on fewer bytes.
#[verifier::external_body]
fn read_u16(buf: &[u8]) -> (r: u16)
    requires
        buf@.len() >= 2,
    ensures
        r == le_u16(buf@),
{
    <byteorder::LittleEndian as byteorder::ByteOrder>::read_u16(buf)
}

/// `byteorder::LittleEndian::read_u32`: the number in the first four bytes,
/// lowest first. It panics on fewer bytes.
#[verifier::external_body]
fn read_u32(buf: &[u8]) -> (r: u32)
    requires
        buf@.len() >= 4,
    ensures
        r == le_u32(buf@),
{
    <byteorder::LittleEndian as byteorder::ByteOrder>::read_u32(buf)
}

/// `byteorder::LittleEndian::read_i16`: the first two bytes, lowest first, as
/// a number in two's complement. It panics on fewer bytes.
#[verifier::external_body]
fn read_i16(buf: &[u8]) -> (r: i16)
    requires
        buf@.len() >= 2,
    ensures
        r == le_i16(buf@),
{
    <byteorder::LittleEndian as byteorder::ByteOrder>::read_i16(buf)
}

/// The byte order that the first twelve bytes of a file declare, if they open
/// a WAVE file: `RIFF` for little and `RIFX` for big endian, four bytes of any
/// value, then `WAVE`.
pub open spec fn spec_magic(header: Seq<u8>) -> Option<Endianness> {
    if header.len() >= 12 && header[0] == 0x52 && header[1] == 0x49 && header[2] == 0x46
        && header[8] == 0x57 && header[9] == 0x41 && header[10] == 0x56 && header[11] == 0x45 {
        if header[3] == 0x46 {
            Some(Endianness::Little)
        } else if header[3] == 0x58 {
            Some(Endianness::Big)
        } else {
            None
        }
    } else {
        None
    }
}

/// Tells whether bytes open a WAVE file, and in which byte order.
pub fn magic(header: &[u8]) -> (r: Option<Endianness>)
    ensures
        r == spec_magic(header@),
{
    if header.len() >= 12 && header[0] == 0x52 && header[1] == 0x49 && header[2] == 0x46
        && header[8] == 0x57 && header[9] == 0x41 && header[10] == 0x56 && header[11] == 0x45 {
        if header[3] == 0x46 {
            Some(Endianness::Little)
        } else if header[3] == 0x58 {
            Some(Endianness::Big)
        } else {
            None
        }
    } else {
        None
    }
}

/// The fields of the format chunk.
#[derive(Copy, Clone, Debug, PartialEq, Eq, Structural)]
pub struct FmtChunk {
    pub audio_format: u16,
    pub num_channels: u16,
    pub sample_rate: u32,
    pub block_align: u16,
    pub sample_size: u16,
}

/// A span of bytes in the file.
#[derive(Copy, Clone, Debug, PartialEq, Eq, Structural)]
pub struct Span {
    pub start: u64,
    pub end: u64,
}

/// The chunks of a file that matter, each as it was seen last.
#[derive(Copy, Clone, Debug, PartialEq, Eq, Structural)]
pub struct Chunks {
    pub fmt: Option<FmtChunk>,
    /// Where an ID3 tag lies.
    pub id3: Option<Span>,
    /// Where the samples lie.
    pub data: Option<Span>,
}

/// The format chunk that sixteen bytes hold.
pub open spec fn spec_fmt(bytes: Seq<u8>) -> FmtChunk {
    FmtChunk {
        audio_format: le_u16(bytes.subrange(0, 2)),
        num_channels: le_u16(bytes.subrange(2, 4)),
        sample_rate: le_u32(bytes.subrange(4, 8)),
        block_align: le_u16(bytes.subrange(12, 14)),
        sample_size: le_u16(bytes.subrange(14, 16)),
    }
}

/// Whether the chunk header at `pos` carries the four bytes of `id`.
pub open spec fn has_id(data: Seq<u8>, pos: int, id: Seq<u8>) -> bool {
    data.subrange(pos, pos + 4) == id
}

pub open spec fn id_fmt() -> Seq<u8> {
    seq![0x66u8, 0x6d, 0x74, 0x20]
}

pub open spec fn id_id3() -> Seq<u8> {
    seq![0x69u8, 0x64, 0x33, 0x20]
}

pub open spec fn id_data() -> Seq<u8> {
    seq![0x64u8, 0x61, 0x74, 0x61]
}

/// What the walk over the chunks from `pos` on adds to `found`. Each chunk is
/// an id of four bytes, a size of four bytes, lowest first, and that many
/// bytes. The walk ends where no whole chunk header is left. A format chunk
/// that is cut short is an error.
pub open spec fn spec_chunks(data: Seq<u8>, pos: int, found: Chunks) -> Result<Chunks, Error>
    decreases
            if pos <= data.len() {
                data.len() - pos + 1
            } else {
                0
            },
{
    if pos < 0 || pos + 8 > data.len() {
        Ok(found)
    } else {
        let size = le_u32(data.subrange(pos + 4, pos + 8));
        let body = pos + 8;
        if has_id(data, pos, id_fmt()) && body + 16 > data.len() {
            Err(Error::IO(IoError::UnexpectedEof))
        } else if body + size > u64::MAX {
            Ok(found)
        } else {
            let next = if has_id(data, pos, id_fmt()) {
                Chunks { fmt: Some(spec_fmt(data.subrange(body, body + 16))), ..found }
            } else if has_id(data, pos, id_id3()) {
                Chunks {
                    id3: Some(Span { start: body as u64, end: (body + size) as u64 }),
                    ..found
                }
            } else if has_id(data, pos, id_data()) {
                Chunks {
                    data: Some(Span { start: body as u64, end: (body + size) as u64 }),
                    ..found
                }
            } else {
                found
            };
            spec_chunks(data, body + size, next)
        }
    }
}

/// The sample kind that a format chunk and a byte order select.
pub open spec fn spec_kind(fmt: FmtChunk, endianness: Endianness) -> Option<SampleKind> {
    if endianness != Endianness::Little || !(fmt.num_channels == 1 || fmt.num_channels == 2) {
        None
    } else if fmt.audio_format == 1 && fmt.sample_size == 8 {
        Some(SampleKind::U8)
    } else if fmt.audio_format == 1 && fmt.sample_size == 16 {
        Some(SampleKind::I16)
    } else if fmt.audio_format == 1 && fmt.sample_size == 24 {
        Some(SampleKind::I24)
    } else if fmt.audio_format == 3 && fmt.sample_size == 32 {
        Some(SampleKind::F32)
    } else {
        None
    }
}

/// What a file says of its samples.
#[derive(Copy, Clone, Debug, PartialEq, Eq, Structural)]
pub struct Info {
    /// Where the samples lie in the file.
    pub data_range: Span,
    pub sample_rate: u32,
    pub num_channels: usize,
    pub bytes_per_sample: usize,
    pub kind: SampleKind,
    /// Where an ID3 tag lies in the file, if it has one.
    pub id3: Option<Span>,
}

/// What a file's bytes say of its samples, or the reason why they cannot be
/// decoded.
pub open spec fn spec_decode(data: Seq<u8>) -> Result<Info, Error> {
    if data.len() < 12 {
        Err(Error::IO(IoError::UnexpectedEof))
    } else {
        match spec_magic(data.subrange(0, 12)) {
            None => Err(Error::FormatError),
            Some(endianness) => match spec_chunks(
                data,
                12,
                Chunks { fmt: None, id3: None, data: None },
            ) {
                Err(e) => Err(e),
                Ok(chunks) => match (chunks.fmt, chunks.data) {
                    (Some(fmt), Some(range)) => if fmt.block_align != fmt.num_channels
                        * fmt.sample_size / 8 {
                        Err(Error::FormatError)
                    } else if fmt.audio_format != 1 && fmt.audio_format != 3 {
                        Err(Error::Unsupported)
                    } else {
                        match spec_kind(fmt, endianness) {
                            Some(kind) => Ok(
                                Info {
                                    data_range: range,
                                    sample_rate: fmt.sample_rate,
                                    num_channels: fmt.num_channels as usize,
                                    bytes_per_sample: (fmt.sample_size / 8) as usize,
                                    kind,
                                    id3: chunks.id3,
                                },
                            ),
                            None => Err(
                                Error::Unimplemented {
                                    endianness,
                                    num_channels: fmt.num_channels,
                                    sample_size: fmt.sample_size,
                                },
                            ),
                        }
                    },
                    _ => Err(Error::FormatError),
                },
            },
        }
    }
}

/// One sample as it stands in the file. A float is given by its bits, a 24-bit
/// sample by its three bytes as a number from zero on.
#[derive(Copy, Clone, Debug, PartialEq, Eq, Structural)]
pub enum Sample {
    U8(u8),
    I16(i16),
    I24(i32),
    F32(u32),
}

/// The sample of a kind that the bytes at the start of `bytes` hold, lowest
/// byte first.
pub open spec fn spec_sample(kind: SampleKind, bytes: Seq<u8>) -> Sample {
    match kind {
        SampleKind::U8 => Sample::U8(bytes[0]),
        SampleKind::I16 => Sample::I16(le_i16(bytes)),
        SampleKind::I24 => Sample::I24(
            (bytes[0] + bytes[1] * 0x100 + bytes[2] * 0x1_0000) as i32,
        ),
        _ => Sample::F32(le_u32(bytes)),
    }
}

/// One frame: a sample for the one channel, or for the left and the right.
#[derive(Copy, Clone, Debug, PartialEq, Eq, Structural)]
pub enum Frame {
    Mono(Sample),
    Stereo(Sample, Sample),
}

/// The decoder of the samples of a WAVE file.
pub struct Decoder {
    pub input: Cursor,
    pub info: Info,
    pub next_sample: u64,
}

impl Decoder {
    /// The number of bytes that one frame takes.
    pub open spec fn frame_bytes(&self) -> int {
        self.info.num_channels * self.info.bytes_per_sample
    }

    /// The number of whole frames that the samples make up.
    pub open spec fn spec_length(&self) -> u64 {
        ((self.info.data_range.end - self.info.data_range.start) / self.frame_bytes()) as u64
    }

    /// The frame whose bytes start at offset `at` of the file.
    pub open spec fn spec_frame(&self, at: int) -> Frame {
        let width = self.info.bytes_per_sample as int;
        let first = spec_sample(self.info.kind, self.input.data@.subrange(at, at + width));
        if self.info.num_channels == 1 {
            Frame::Mono(first)
        } else {
            Frame::Stereo(
                first,
                spec_sample(self.info.kind, self.input.data@.subrange(at + width, at + 2 * width)),
            )
        }
    }

    /// Whether a frame starts at offset `at`: within the samples, and whole
    /// within the file.
    pub open spec fn has_frame(&self, at: int) -> bool {
        self.info.data_range.start <= at < self.info.data_range.end && at + self.frame_bytes()
            <= self.input.data@.len()
    }

    /// The sizes are those of a sample kind that is decoded, for one or two
    /// channels, and the samples end where their span says.
    pub open spec fn decodable(&self) -> bool {
        &&& self.info.num_channels == 1 || self.info.num_channels == 2
        &&& self.info.bytes_per_sample * 8 == self.info.kind.spec_bits()
        &&& self.info.kind == SampleKind::U8 || self.info.kind == SampleKind::I16
            || self.info.kind == SampleKind::I24 || self.info.kind == SampleKind::F32
        &&& self.info.data_range.start <= self.info.data_range.end
    }

    /// The number of bytes that one frame takes.
    pub fn frame_size(&self) -> (n: u64)
        requires
            self.decodable(),
        ensures
            n == self.frame_bytes(),
            1 <= n <= 8,
    {
        assert(1 <= self.info.bytes_per_sample <= 4);
        if self.info.num_channels == 1 {
            self.info.bytes_per_sample as u64
        } else {
            2 * self.info.bytes_per_sample as u64
        }
    }

    /// What the decoder hands on to the pipeline: its shape, its sample rate
    /// and its length.
    pub fn audio(&self) -> (a: dynam::Audio)
        requires
            self.decodable(),
        ensures
            a == dynam::Audio::Seek(
                dynam::Seek {
                    layout: dynam::Layout {
                        stereo: self.info.num_channels == 2,
                        kind: self.info.kind,
                    },
                    rate: self.info.sample_rate,
                    length: self.size(),
                },
            ),
    {
        dynam::Audio::Seek(
            dynam::Seek {
                layout: dynam::Layout {
                    stereo: self.info.num_channels == 2,
                    kind: self.info.kind,
                },
                rate: self.info.sample_rate,
                length: self.length(),
            },
        )
    }

    /// Decodes the sample at the start of `bytes`.
    fn decode_sample(kind: SampleKind, bytes: &[u8]) -> (s: Sample)
        requires
            bytes@.len() * 8 >= kind.spec_bits(),
            kind == SampleKind::U8 || kind == SampleKind::I16 || kind == SampleKind::I24 || kind
                == SampleKind::F32,
        ensures
            s == spec_sample(kind, bytes@),
    {
        match kind {
            SampleKind::U8 => Sample::U8(bytes[0]),
            SampleKind::I16 => Sample::I16(read_i16(bytes)),
            SampleKind::I24 => Sample::I24(
                bytes[0] as i32 + bytes[1] as i32 * 0x100 + bytes[2] as i32 * 0x1_0000,
            ),
            _ => Sample::F32(read_u32(bytes)),
        }
    }
}

/// The offset of frame `n + 1` lies one frame behind that of frame `n`.
proof fn lemma_offsets(n: nat, frame_bytes: int)
    requires
        frame_bytes >= 1,
    ensures
        (n + 1) * frame_bytes == n * frame_bytes + frame_bytes,
        n * frame_bytes >= 0,
{
    assert((n + 1) * frame_bytes == n * frame_bytes + frame_bytes && n * frame_bytes >= 0)
        by (nonlinear_arith)
        requires
            frame_bytes >= 1,
    ;
}

impl Source for Decoder {
    type Item = Frame;

    open spec fn wf(&self) -> bool {
        self.decodable()
    }

    open spec fn rate(&self) -> u32 {
        self.info.sample_rate
    }

    /// A frame for as long as whole frames follow each other within the
    /// samples, from a position within the samples.
    open spec fn upcoming(&self, n: nat) -> Option<Frame> {
        if self.info.data_range.start <= self.input.pos && self.has_frame(
            self.input.pos + n * self.frame_bytes(),
        ) {
            Some(self.spec_frame(self.input.pos + n * self.frame_bytes()))
        } else {
            None
        }
    }

    fn sample_rate(&self) -> (r: u32) {
        self.info.sample_rate
    }

    fn next(&mut self) -> (r: Option<Frame>)
        ensures
            final(self).info == old(self).info,
            final(self).input.data@ == old(self).input.data@,
            old(self).aligned() ==> final(self).aligned(),
            old(self).aligned() && r is Some ==> final(self).next_sample == old(self).next_sample
                + 1,
            old(self).aligned() && r is None ==> final(self).next_sample == final(self).spec_length(),
    {
        let ghost before = *self;
        proof {
            if before.aligned() {
                before.lemma_aligned_step();
            }
        }
        let fpos: u64 = self.input.position();
        let frame_bytes: u64 = self.frame_size();
        let width: usize = self.info.bytes_per_sample;
        proof {
            assert(0 * frame_bytes == 0);
        }
        if fpos < self.info.data_range.start || self.info.data_range.end <= fpos {
            proof {
                assert forall|n: nat| #[trigger] self.upcoming(n) == before.upcoming(n + 1) by {
                    lemma_offsets(n, frame_bytes as int);
                }
            }
            return None;
        }
        let buf = self.input.read(frame_bytes as usize);
        if buf.len() != frame_bytes as usize {
            proof {
                assert(self.input.pos + frame_bytes > self.input.data@.len());
                assert forall|n: nat| #[trigger] self.upcoming(n) == before.upcoming(n + 1) by {
                    lemma_offsets(n, frame_bytes as int);
                }
            }
            return None;
        }
        proof {
            if before.aligned() {
                let k = before.next_sample as int;
                let fb = frame_bytes as int;
                assert((k * fb) / fb == k && (k + 1) * fb == k * fb + fb) by (nonlinear_arith)
                    requires
                        fb >= 1,
                        k >= 0,
                ;
                assert(k * fb + fb <= u64::MAX);
                assert(k + 1 <= u64::MAX) by (nonlinear_arith)
                    requires
                        k * fb + fb <= u64::MAX,
                        fb >= 1,
                        k >= 0,
                ;
            }
        }
        assert((fpos - self.info.data_range.start) / (frame_bytes as int) + 1 <= u64::MAX) by {
            assert((fpos - self.info.data_range.start) / (frame_bytes as int) <= fpos
                - self.info.data_range.start) by (nonlinear_arith)
                requires
                    frame_bytes >= 1,
                    fpos - self.info.data_range.start >= 0,
            ;
            assert(fpos + frame_bytes <= self.input.data@.len());
        }
        self.next_sample = (fpos - self.info.data_range.start) / frame_bytes + 1;
        let first_bytes = slice_subrange(buf.as_slice(), 0, width);
        proof {
            assert(first_bytes@ =~= before.input.data@.subrange(fpos as int, fpos + width));
        }
        let first = Decoder::decode_sample(self.info.kind, first_bytes);
        let frame = if self.info.num_channels == 1 {
            Frame::Mono(first)
        } else {
            let second_bytes = slice_subrange(buf.as_slice(), width, 2 * width);
            proof {
                assert(second_bytes@ =~= before.input.data@.subrange(
                    fpos + width,
                    fpos + 2 * width,
                ));
            }
            Frame::Stereo(first, Decoder::decode_sample(self.info.kind, second_bytes))
        };
        proof {
            assert(before.has_frame(fpos as int));
            assert(frame == before.spec_frame(fpos as int));
            assert forall|n: nat| #[trigger] self.upcoming(n) == before.upcoming(n + 1) by {
                lemma_offsets(n, frame_bytes as int);
            }
        }
        Some(frame)
    }
}

impl Seekable for Decoder {
    open spec fn valid(&self) -> bool {
        self.decodable()
    }

    open spec fn size(&self) -> u64 {
        self.spec_length()
    }

    open spec fn cursor(&self) -> u64 {
        self.next_sample
    }

    /// A position within the length always succeeds: the stream stands at the
    /// bytes of that frame afterwards.
    fn seek(&mut self, position: u64) -> (r: Result<(), SeekError>)
        ensures
            position < old(self).size() ==> r is Ok,
            final(self).info == old(self).info,
            final(self).input.data@ == old(self).input.data@,
            r is Ok ==> final(self).input.pos == old(self).info.data_range.start + position
                * old(self).frame_bytes(),
            r is Err ==> final(self).input.pos == old(self).input.pos,
            old(self).aligned() && r is Ok ==> final(self).aligned(),
            r is Ok ==> final(self).upcoming(0) == if old(self).has_frame(
                old(self).info.data_range.start + position * old(self).frame_bytes(),
            ) {
                Some(
                    old(self).spec_frame(
                        old(self).info.data_range.start + position * old(self).frame_bytes(),
                    ),
                )
            } else {
                None
            },
    {
        let size: u64 = self.length();
        if position >= size {
            return Err(SeekError::OutofRange { pos: position, size });
        }
        let frame_bytes: u64 = self.frame_size();
        proof {
            let span = self.info.data_range.end - self.info.data_range.start;
            assert(position * frame_bytes <= span) by (nonlinear_arith)
                requires
                    position < span / (frame_bytes as int),
                    frame_bytes >= 1,
                    span >= 0,
            ;
        }
        let fpos: u64 = self.info.data_range.start + position * frame_bytes;
        self.input.set_position(fpos);
        self.next_sample = position;
        proof {
            assert(0 * frame_bytes == 0);
        }
        Ok(())
    }

    fn length(&self) -> (n: u64) {
        let frame_bytes: u64 = self.frame_size();
        (self.info.data_range.end - self.info.data_range.start) / frame_bytes
    }

    fn current_position(&self) -> (p: u64) {
        self.next_sample
    }
}

impl Decoder {
    /// The stream stands at the frame of the cursor, the samples are a whole
    /// number of frames, and the file holds them all.
    pub open spec fn aligned(&self) -> bool {
        &&& self.decodable()
        &&& self.input.pos == self.info.data_range.start + self.next_sample * self.frame_bytes()
        &&& (self.info.data_range.end - self.info.data_range.start) % self.frame_bytes() == 0
        &&& self.info.data_range.end <= self.input.data@.len()
        &&& self.next_sample <= self.spec_length()
    }

    /// In a decoder that stands at the frame of its cursor, a whole frame
    /// follows for as long as the cursor lies before the length, and the
    /// stream stands at the end of the samples once the cursor is the length.
    pub proof fn lemma_aligned_step(&self)
        requires
            self.aligned(),
        ensures
            1 <= self.frame_bytes() <= 8,
            self.next_sample < self.spec_length() ==> self.input.pos + self.frame_bytes()
                <= self.info.data_range.end,
            self.next_sample == self.spec_length() <==> self.input.pos
                == self.info.data_range.end,
            self.input.pos <= self.info.data_range.end,
    {
        let fb = self.frame_bytes();
        let span = self.info.data_range.end - self.info.data_range.start;
        let k = self.next_sample as int;
        let len = span / fb;
        assert(1 <= fb <= 8) by (nonlinear_arith)
            requires
                fb == self.info.num_channels * self.info.bytes_per_sample,
                1 <= self.info.num_channels <= 2,
                1 <= self.info.bytes_per_sample <= 4,
        ;
        assert(span == len * fb) by (nonlinear_arith)
            requires
                span % fb == 0,
                len == span / fb,
                fb >= 1,
        ;
        assert(k < len ==> k * fb + fb <= len * fb) by (nonlinear_arith)
            requires
                fb >= 1,
        ;
        assert(k == len <==> k * fb == len * fb) by (nonlinear_arith)
            requires
                fb >= 1,
        ;
        assert(k <= len ==> k * fb <= len * fb) by (nonlinear_arith)
            requires
                fb >= 1,
        ;
    }

    /// The position and the frames that are left add up to the length: from
    /// the cursor on, a frame comes for every index below the length, and none
    /// behind.
    pub proof fn lemma_frames_left(&self, n: nat)
        requires
            self.aligned(),
        ensures
            self.upcoming(n) is Some <==> self.cursor() + n < self.size(),
    {
        let fb = self.frame_bytes();
        let span = self.info.data_range.end - self.info.data_range.start;
        let at = self.next_sample + n;
        assert(1 <= fb <= 8) by (nonlinear_arith)
            requires
                fb == self.info.num_channels * self.info.bytes_per_sample,
                1 <= self.info.num_channels <= 2,
                1 <= self.info.bytes_per_sample <= 4,
        ;
        assert(self.input.pos + n * fb == self.info.data_range.start + at * fb)
            by (nonlinear_arith)
            requires
                self.input.pos == self.info.data_range.start + self.next_sample * fb,
                at == self.next_sample + n,
        ;
        assert(self.next_sample * fb >= 0 && n * fb >= 0) by (nonlinear_arith)
            requires
                fb >= 1,
        ;
        assert(span == (span / fb) * fb) by (nonlinear_arith)
            requires
                span % fb == 0,
                fb >= 1,
        ;
        assert(at < span / fb <==> at * fb + fb <= span) by (nonlinear_arith)
            requires
                span == (span / fb) * fb,
                fb >= 1,
                at >= 0,
        ;
        assert(at * fb < span <==> at * fb + fb <= span) by (nonlinear_arith)
            requires
                span == (span / fb) * fb,
                fb >= 1,
                at >= 0,
        ;
    }
}

impl Seek for Decoder {

}

/// The chunks from the stream's position on, by `spec_chunks`.
fn read_chunks(input: &mut Cursor) -> (r: Result<Chunks, Error>)
    ensures
        final(input).data@ == old(input).data@,
        r == spec_chunks(
            old(input).data@,
            old(input).pos as int,
            Chunks { fmt: None, id3: None, data: None },
        ),
        r matches Ok(chunks) ==> (chunks.data matches Some(span) ==> span.start <= span.end),
{
    let ghost data = input.data@;
    let ghost start = input.pos as int;
    let ghost empty = Chunks { fmt: None, id3: None, data: None };
    let mut found = Chunks { fmt: None, id3: None, data: None };
    loop
        invariant
            input.data@ == data,
            data == old(input).data@,
            start == old(input).pos,
            empty == (Chunks { fmt: None, id3: None, data: None }),
            found.data matches Some(span) ==> span.start <= span.end,
            spec_chunks(data, input.pos as int, found) == spec_chunks(data, start, empty),
        decreases
                if input.pos <= data.len() {
                    data.len() - input.pos + 1
                } else {
                    0
                },
    {
        let pos: u64 = input.position();
        let header = match input.read_exact(8) {
            Some(header) => header,
            None => {
                return Ok(found);
            },
        };
        let size_bytes = slice_subrange(header.as_slice(), 4, 8);
        proof {
            assert(size_bytes@ =~= data.subrange(pos + 4, pos + 8));
            assert(header@.subrange(0, 4) =~= data.subrange(pos as int, pos + 4));
        }
        let size: u64 = read_u32(size_bytes) as u64;
        let body: u64 = input.position();
        let is_fmt = header[0] == 0x66 && header[1] == 0x6d && header[2] == 0x74 && header[3]
            == 0x20;
        let is_id3 = header[0] == 0x69 && header[1] == 0x64 && header[2] == 0x33 && header[3]
            == 0x20;
        let is_data = header[0] == 0x64 && header[1] == 0x61 && header[2] == 0x74 && header[3]
            == 0x61;
        proof {
            let id = data.subrange(pos as int, pos + 4);
            assert(id.len() == 4);
            assert(is_fmt <==> id =~= id_fmt());
            assert(is_id3 <==> id =~= id_id3());
            assert(is_data <==> id =~= id_data());
        }
        let mut chunk: Option<FmtChunk> = None;
        if is_fmt {
            let buf = match input.read_exact(16) {
                Some(buf) => buf,
                None => {
                    return Err(Error::IO(IoError::UnexpectedEof));
                },
            };
            let audio_format = read_u16(slice_subrange(buf.as_slice(), 0, 2));
            let num_channels = read_u16(slice_subrange(buf.as_slice(), 2, 4));
            let sample_rate = read_u32(slice_subrange(buf.as_slice(), 4, 8));
            let block_align = read_u16(slice_subrange(buf.as_slice(), 12, 14));
            let sample_size = read_u16(slice_subrange(buf.as_slice(), 14, 16));
            chunk = Some(
                FmtChunk { audio_format, num_channels, sample_rate, block_align, sample_size },
            );
        }
        if size > u64::MAX - body {
            return Ok(found);
        }
        if is_fmt {
            found.fmt = chunk;
        } else if is_id3 {
            found.id3 = Some(Span { start: body, end: body + size });
        } else if is_data {
            found.data = Some(Span { start: body, end: body + size });
        }
        input.set_position(body + size);
    }
}

/// Reads the container of a WAVE file and sets up the decoder of its
/// samples, positioned at the first frame.
pub fn decode(input: Cursor) -> (r: Result<Decoder, Error>)
    ensures
        match (r, spec_decode(input.data@)) {
            (Ok(decoder), Ok(info)) => {
                &&& decoder.info == info
                &&& decoder.input.data@ == input.data@
                &&& decoder.input.pos == info.data_range.start
                &&& decoder.next_sample == 0
                &&& decoder.decodable()
            },
            (Err(e), Err(expected)) => e == expected,
            _ => false,
        },
{
    let mut input = input;
    let ghost data = input.data@;
    input.set_position(0);
    let file_header = match input.read_exact(12) {
        Some(header) => header,
        None => {
            return Err(Error::IO(IoError::UnexpectedEof));
        },
    };
    proof {
        assert(file_header@ =~= data.subrange(0, 12));
    }
    let endianness = match magic(file_header.as_slice()) {
        Some(endianness) => endianness,
        None => {
            return Err(Error::FormatError);
        },
    };
    let chunks = match read_chunks(&mut input) {
        Ok(chunks) => chunks,
        Err(e) => {
            return Err(e);
        },
    };
    let fmt = match chunks.fmt {
        Some(fmt) => fmt,
        None => {
            return Err(Error::FormatError);
        },
    };
    let data_range = match chunks.data {
        Some(range) => range,
        None => {
            return Err(Error::FormatError);
        },
    };
    assert(fmt.num_channels * fmt.sample_size <= u32::MAX) by (nonlinear_arith)
        requires
            fmt.num_channels <= 0xffff,
            fmt.sample_size <= 0xffff,
    ;
    if fmt.block_align as u32 != fmt.num_channels as u32 * fmt.sample_size as u32 / 8 {
        return Err(Error::FormatError);
    }
    if fmt.audio_format != 1 && fmt.audio_format != 3 {
        return Err(Error::Unsupported);
    }
    let supported = endianness == Endianness::Little && (fmt.num_channels == 1 || fmt.num_channels
        == 2);
    let kind = if supported && fmt.audio_format == 1 && fmt.sample_size == 8 {
        SampleKind::U8
    } else if supported && fmt.audio_format == 1 && fmt.sample_size == 16 {
        SampleKind::I16
    } else if supported && fmt.audio_format == 1 && fmt.sample_size == 24 {
        SampleKind::I24
    } else if supported && fmt.audio_format == 3 && fmt.sample_size == 32 {
        SampleKind::F32
    } else {
        return Err(
            Error::Unimplemented {
                endianness,
                num_channels: fmt.num_channels,
                sample_size: fmt.sample_size,
            },
        );
    };
    input.set_position(data_range.start);
    Ok(
        Decoder {
            input,
            info: Info {
                data_range,
                sample_rate: fmt.sample_rate,
                num_channels: fmt.num_channels as usize,
                bytes_per_sample: (fmt.sample_size / 8) as usize,
                kind,
                id3: chunks.id3,
            },
            next_sample: 0,
        },
    )
}

} // verus!
