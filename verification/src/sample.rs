//! Sample encodings and exact amplitudes.
//!
//! A device delivers samples in one of eight encodings, fixed for the whole
//! capture. A sample of an integer encoding is normalised to the exact
//! fraction of the encoding's range at which it lies: the lowest value is
//! exactly zero, the highest exactly one. Samples of the two floating
//! encodings are amplitudes already and never pass through this module.

use vstd::prelude::*;

verus! {

/// The encodings a capture can run in.
#[derive(Debug, PartialEq, Eq, Clone, Copy, Hash, Structural)]
pub enum Encoding {
    I8,
    U8,
    I16,
    U16,
    I32,
    U32,
    F32,
    F64,
}

/// The sample formats a device may announce. Byte order does not matter
/// once a sample has been read, so both orders of a width share an encoding.
#[derive(Debug, PartialEq, Eq, Clone, Copy, Hash, Structural)]
pub enum SampleFormat {
    S8,
    U8,
    S16LE,
    S16BE,
    U16LE,
    U16BE,
    S32LE,
    S32BE,
    U32LE,
    U32BE,
    FloatLE,
    FloatBE,
    Float64LE,
    Float64BE,
    /// Any format that is none of the above.
    Other,
}

/// An amplitude as an exact fraction `num / den`.
#[derive(Debug, PartialEq, Eq, Clone, Copy, Hash, Structural)]
pub struct Amplitude {
    pub num: u64,
    pub den: u64,
}

impl Encoding {
    /// Whether samples of this encoding are integers.
    pub open spec fn integral(self) -> bool {
        !(self == Encoding::F32 || self == Encoding::F64)
    }

    /// The lowest sample of an integer encoding.
    pub open spec fn lowest(self) -> int {
        match self {
            Encoding::I8 => -0x80,
            Encoding::I16 => -0x8000,
            Encoding::I32 => -0x8000_0000,
            _ => 0,
        }
    }

    /// The highest sample of an integer encoding.
    pub open spec fn highest(self) -> int {
        match self {
            Encoding::I8 => 0x7f,
            Encoding::U8 => 0xff,
            Encoding::I16 => 0x7fff,
            Encoding::U16 => 0xffff,
            Encoding::I32 => 0x7fff_ffff,
            Encoding::U32 => 0xffff_ffff,
            _ => 0,
        }
    }

    /// The width of an integer encoding's range; zero for the floating
    /// encodings, which have none.
    pub open spec fn span(self) -> int {
        self.highest() - self.lowest()
    }

    /// The number of bytes that one sample takes in storage.
    pub open spec fn width(self) -> nat {
        match self {
            Encoding::I8 | Encoding::U8 => 1,
            Encoding::I16 | Encoding::U16 => 2,
            Encoding::I32 | Encoding::U32 | Encoding::F32 => 4,
            Encoding::F64 => 8,
        }
    }

    /// The encoding of a sample format, for the formats that have one.
    pub open spec fn of_format(format: SampleFormat) -> Option<Encoding> {
        match format {
            SampleFormat::S8 => Some(Encoding::I8),
            SampleFormat::U8 => Some(Encoding::U8),
            SampleFormat::S16LE | SampleFormat::S16BE => Some(Encoding::I16),
            SampleFormat::U16LE | SampleFormat::U16BE => Some(Encoding::U16),
            SampleFormat::S32LE | SampleFormat::S32BE => Some(Encoding::I32),
            SampleFormat::U32LE | SampleFormat::U32BE => Some(Encoding::U32),
            SampleFormat::FloatLE | SampleFormat::FloatBE => Some(Encoding::F32),
            SampleFormat::Float64LE | SampleFormat::Float64BE => Some(Encoding::F64),
            SampleFormat::Other => None,
        }
    }

    /// The encoding that samples of `format` are read in, or `None` for a
    /// format that is not supported.
    pub fn from_format(format: SampleFormat) -> (r: Option<Encoding>)
        ensures
            r == Encoding::of_format(format),
            r is None <==> format == SampleFormat::Other,
    {
        match format {
            SampleFormat::S8 => Some(Encoding::I8),
            SampleFormat::U8 => Some(Encoding::U8),
            SampleFormat::S16LE | SampleFormat::S16BE => Some(Encoding::I16),
            SampleFormat::U16LE | SampleFormat::U16BE => Some(Encoding::U16),
            SampleFormat::S32LE | SampleFormat::S32BE => Some(Encoding::I32),
            SampleFormat::U32LE | SampleFormat::U32BE => Some(Encoding::U32),
            SampleFormat::FloatLE | SampleFormat::FloatBE => Some(Encoding::F32),
            SampleFormat::Float64LE | SampleFormat::Float64BE => Some(Encoding::F64),
            SampleFormat::Other => None,
        }
    }

    /// Whether samples of this encoding are integers.
    pub fn is_integer(self) -> (r: bool)
        ensures
            r == self.integral(),
    {
        match self {
            Encoding::F32 | Encoding::F64 => false,
            _ => true,
        }
    }

    /// The number of bytes that one sample takes in storage.
    pub fn bytes(self) -> (r: usize)
        ensures
            r == self.width(),
            1 <= r <= 8,
    {
        match self {
            Encoding::I8 | Encoding::U8 => 1,
            Encoding::I16 | Encoding::U16 => 2,
            Encoding::I32 | Encoding::U32 | Encoding::F32 => 4,
            Encoding::F64 => 8,
        }
    }

    /// The width of the range of this encoding: the highest sample minus
    /// the lowest. Zero for the floating encodings.
    pub fn range(self) -> (r: u64)
        ensures
            r == self.span(),
            self.integral() ==> 0 < r <= 0xffff_ffff,
    {
        match self {
            Encoding::I8 | Encoding::U8 => 0xff,
            Encoding::I16 | Encoding::U16 => 0xffff,
            Encoding::I32 | Encoding::U32 => 0xffff_ffff,
            Encoding::F32 | Encoding::F64 => 0,
        }
    }
}

/// The amplitude of the sample `value` of an integer encoding: its distance
/// from the lowest sample over the width of the range.
pub open spec fn normalized(encoding: Encoding, value: int) -> Amplitude {
    Amplitude { num: (value - encoding.lowest()) as u64, den: encoding.span() as u64 }
}

impl Amplitude {
    /// A fraction with a denominator, between zero and one.
    pub open spec fn wf(self) -> bool {
        0 < self.den && self.num <= self.den
    }

    /// Exactly zero.
    pub open spec fn is_zero(self) -> bool {
        self.num == 0 && self.den > 0
    }

    /// Exactly one.
    pub open spec fn is_one(self) -> bool {
        self.num == self.den && self.den > 0
    }

    /// Whether this fraction is at most `other`.
    pub open spec fn at_most(self, other: Amplitude) -> bool {
        self.num * other.den <= other.num * self.den
    }
}

/// Conversion of a sample of type `T` into an amplitude.
pub trait FromSample<T>: Sized {
    /// The amplitude that the sample stands for.
    spec fn sampled(sample: T) -> Self;

    fn from_sample(sample: T) -> (r: Self)
        ensures
            r == Self::sampled(sample),
    ;
}

/// An amplitude that samples of every integer encoding convert into.
pub trait FromAnySample: FromSample<i8> + FromSample<i16> + FromSample<i32> + FromSample<
    u8,
> + FromSample<u16> + FromSample<u32> {

}

impl<T> FromAnySample for T where
    T: FromSample<i8> + FromSample<i16> + FromSample<i32> + FromSample<u8> + FromSample<
        u16,
    > + FromSample<u32>,
 {

}

impl FromSample<i8> for Amplitude {
    open spec fn sampled(sample: i8) -> Amplitude {
        normalized(Encoding::I8, sample as int)
    }

    fn from_sample(sample: i8) -> (r: Amplitude) {
        Amplitude { num: (sample as i64 + 0x80) as u64, den: 0xff }
    }
}

impl FromSample<u8> for Amplitude {
    open spec fn sampled(sample: u8) -> Amplitude {
        normalized(Encoding::U8, sample as int)
    }

    fn from_sample(sample: u8) -> (r: Amplitude) {
        Amplitude { num: sample as u64, den: 0xff }
    }
}

impl FromSample<i16> for Amplitude {
    open spec fn sampled(sample: i16) -> Amplitude {
        normalized(Encoding::I16, sample as int)
    }

    fn from_sample(sample: i16) -> (r: Amplitude) {
        Amplitude { num: (sample as i64 + 0x8000) as u64, den: 0xffff }
    }
}

impl FromSample<u16> for Amplitude {
    open spec fn sampled(sample: u16) -> Amplitude {
        normalized(Encoding::U16, sample as int)
    }

    fn from_sample(sample: u16) -> (r: Amplitude) {
        Amplitude { num: sample as u64, den: 0xffff }
    }
}

impl FromSample<i32> for Amplitude {
    open spec fn sampled(sample: i32) -> Amplitude {
        normalized(Encoding::I32, sample as int)
    }

    fn from_sample(sample: i32) -> (r: Amplitude) {
        Amplitude { num: (sample as i64 + 0x8000_0000) as u64, den: 0xffff_ffff }
    }
}

impl FromSample<u32> for Amplitude {
    open spec fn sampled(sample: u32) -> Amplitude {
        normalized(Encoding::U32, sample as int)
    }

    fn from_sample(sample: u32) -> (r: Amplitude) {
        Amplitude { num: sample as u64, den: 0xffff_ffff }
    }
}

/// The lowest sample of an integer encoding is exactly zero and the highest
/// exactly one.
pub proof fn lemma_endpoints_exact(encoding: Encoding)
    requires
        encoding.integral(),
    ensures
        normalized(encoding, encoding.lowest()).is_zero(),
        normalized(encoding, encoding.highest()).is_one(),
{
}

/// Every sample of an integer encoding is a fraction between zero and one,
/// and a larger sample is never a smaller amplitude.
pub proof fn lemma_normalized_monotonic(encoding: Encoding, low: int, high: int)
    requires
        encoding.integral(),
        encoding.lowest() <= low <= high <= encoding.highest(),
    ensures
        normalized(encoding, low).wf(),
        normalized(encoding, high).wf(),
        normalized(encoding, low).at_most(normalized(encoding, high)),
        normalized(encoding, low).den == normalized(encoding, high).den,
        normalized(encoding, low).num <= normalized(encoding, high).num,
{
    let a = normalized(encoding, low);
    let b = normalized(encoding, high);
    assert(a.num * b.den <= b.num * a.den) by (nonlinear_arith)
        requires
            a.num <= b.num,
            a.den == b.den,
    ;
}

} // verus!
