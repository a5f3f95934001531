//! The shapes that audio crosses component borders in: channel count and
//! sample kind, with or without the ability to seek.

use vstd::prelude::*;

verus! {

/// How the bits of a sample are read.
#[derive(Copy, Clone, Debug, PartialEq, Eq, Structural)]
pub enum Format {
    Float,
    Signed,
    Unsigned,
}

/// The sample kinds. The 24-bit kinds are stored in 32 bits, of which the
/// highest eight stay unused.
#[derive(Copy, Clone, Debug, PartialEq, Eq, Structural)]
pub enum SampleKind {
    I8,
    U8,
    I16,
    U16,
    I24,
    U24,
    I32,
    U32,
    I64,
    U64,
    F32,
    F64,
}

impl SampleKind {
    pub open spec fn spec_bits(self) -> u32 {
        match self {
            SampleKind::I8 | SampleKind::U8 => 8,
            SampleKind::I16 | SampleKind::U16 => 16,
            SampleKind::I24 | SampleKind::U24 => 24,
            SampleKind::I32 | SampleKind::U32 | SampleKind::F32 => 32,
            SampleKind::I64 | SampleKind::U64 | SampleKind::F64 => 64,
        }
    }

    pub open spec fn spec_format(self) -> Format {
        match self {
            SampleKind::F32 | SampleKind::F64 => Format::Float,
            SampleKind::I8 | SampleKind::I16 | SampleKind::I24 | SampleKind::I32
            | SampleKind::I64 => Format::Signed,
            _ => Format::Unsigned,
        }
    }

    /// The bits in which a sample is kept in memory.
    pub open spec fn spec_container_bits(self) -> u32 {
        if self.spec_bits() == 24 {
            32
        } else {
            self.spec_bits()
        }
    }

    /// The significant bits of a sample.
    pub fn bits(self) -> (b: u32)
        ensures
            b == self.spec_bits(),
    {
        match self {
            SampleKind::I8 | SampleKind::U8 => 8,
            SampleKind::I16 | SampleKind::U16 => 16,
            SampleKind::I24 | SampleKind::U24 => 24,
            SampleKind::I32 | SampleKind::U32 | SampleKind::F32 => 32,
            SampleKind::I64 | SampleKind::U64 | SampleKind::F64 => 64,
        }
    }

    pub fn format(self) -> (f: Format)
        ensures
            f == self.spec_format(),
    {
        match self {
            SampleKind::F32 | SampleKind::F64 => Format::Float,
            SampleKind::I8 | SampleKind::I16 | SampleKind::I24 | SampleKind::I32
            | SampleKind::I64 => Format::Signed,
            _ => Format::Unsigned,
        }
    }

    /// The bits in which a sample is kept in memory.
    pub fn container_bits(self) -> (b: u32)
        ensures
            b == self.spec_container_bits(),
    {
        let bits = self.bits();
        if bits == 24 {
            32
        } else {
            bits
        }
    }
}

/// The shape of a frame: one or two channels of one sample kind.
#[derive(Copy, Clone, Debug, PartialEq, Eq, Structural)]
pub struct Layout {
    pub stereo: bool,
    pub kind: SampleKind,
}

/// A source as it is handed on, with its shape and sample rate.
#[derive(Copy, Clone, Debug, PartialEq, Eq, Structural)]
pub struct Source {
    pub layout: Layout,
    pub rate: u32,
}

/// A seekable source as it is handed on, with its shape, sample rate and length
/// in frames.
#[derive(Copy, Clone, Debug, PartialEq, Eq, Structural)]
pub struct Seek {
    pub layout: Layout,
    pub rate: u32,
    pub length: u64,
}

/// Audio of either capability.
#[derive(Copy, Clone, Debug, PartialEq, Eq, Structural)]
pub enum Audio {
    Source(Source),
    Seek(Seek),
}

impl Layout {
    pub fn num_channels(&self) -> (n: u32)
        ensures
            n == if self.stereo { 2u32 } else { 1u32 },
    {
        if self.stereo {
            2
        } else {
            1
        }
    }

    pub fn bits_per_sample(&self) -> (b: u32)
        ensures
            b == self.kind.spec_bits(),
    {
        self.kind.bits()
    }

    pub fn format(&self) -> (f: Format)
        ensures
            f == self.kind.spec_format(),
    {
        self.kind.format()
    }
}

impl Source {
    pub fn format(&self) -> (f: Format)
        ensures
            f == self.layout.kind.spec_format(),
    {
        self.layout.format()
    }

    pub fn sample_rate(&self) -> (r: u32)
        ensures
            r == self.rate,
    {
        self.rate
    }
}

impl Seek {
    pub fn format(&self) -> (f: Format)
        ensures
            f == self.layout.kind.spec_format(),
    {
        self.layout.format()
    }

    pub fn sample_rate(&self) -> (r: u32)
        ensures
            r == self.rate,
    {
        self.rate
    }

    /// The same audio without the ability to seek.
    pub fn into_source(self) -> (s: Source)
        ensures
            s == (Source { layout: self.layout, rate: self.rate }),
    {
        Source { layout: self.layout, rate: self.rate }
    }
}

impl Audio {
    /// The seekable audio, if it is one.
    pub fn into_seek(self) -> (r: Option<Seek>)
        ensures
            r == match self {
                Audio::Source(_) => None::<Seek>,
                Audio::Seek(seek) => Some(seek),
            },
    {
        match self {
            Audio::Source(_) => None,
            Audio::Seek(seek) => Some(seek),
        }
    }

    pub fn is_seek(&self) -> (b: bool)
        ensures
            b == (self is Seek),
    {
        match self {
            Audio::Source(_) => false,
            Audio::Seek(_) => true,
        }
    }

    pub fn sample_rate(&self) -> (r: u32)
        ensures
            r == match self {
                Audio::Source(s) => s.rate,
                Audio::Seek(s) => s.rate,
            },
    {
        match self {
            Audio::Source(s) => s.rate,
            Audio::Seek(s) => s.rate,
        }
    }

    /// The audio as a plain source; a seekable one loses that ability.
    pub fn into_source(self) -> (s: Source)
        ensures
            s == match self {
                Audio::Source(s) => s,
                Audio::Seek(k) => (Source { layout: k.layout, rate: k.rate }),
            },
    {
        match self {
            Audio::Source(s) => s,
            Audio::Seek(k) => k.into_source(),
        }
    }
}

} // verus!
