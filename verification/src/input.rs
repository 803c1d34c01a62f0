//! The input adapter: from what a device delivers to the sliding window.
//!
//! The adapter owns the scratch storage that a device is read into and the
//! window of recent amplitudes. Reading the device is the caller's part; the
//! adapter is told how many frames arrived, or how the read failed, and does
//! the rest.
//!
//! For a capture in an integer encoding the window holds, for each frame,
//! twice the sum of the distances of its samples from the lowest sample. Over
//! [`scale_of`] that is the mean amplitude of the frame, and the neutral
//! word is exactly one half. For a capture in a floating encoding the
//! adapter keeps the window and its geometry, and the caller reduces the
//! frames and hands in the words.

use crate::frame::average;
use crate::frame::chunk_at;
use crate::frame::chunk_count;
use crate::frame::chunked;
use crate::frame::common_denominator;
use crate::frame::lemma_sum_bounded;
use crate::frame::sum_num;
use crate::normalize::Normal;
use crate::sample::normalized;
use crate::sample::Amplitude;
use crate::sample::Encoding;
use crate::sample::SampleFormat;
use crate::window::allocatable;
use crate::window::can_allocate;
use crate::window::keep_last;
use crate::window::lemma_window_length;
use crate::window::SlidingBuffer;
use vstd::prelude::*;

verus! {

/// The most channels a frame can have: with fewer than two to the power of
/// 31 channels, twice the sum of a frame of 32-bit samples fits in 64 bits.
pub const MAX_CHANNELS: usize = 0x7fff_ffff;

/// Scratch storage for one read of the device, in the encoding of the
/// capture. For the floating encodings the storage itself is the caller's,
/// and only its length in samples is kept here.
#[derive(Debug)]
pub enum InputBuffer {
    I8(Vec<i8>),
    U8(Vec<u8>),
    I16(Vec<i16>),
    U16(Vec<u16>),
    I32(Vec<i32>),
    U32(Vec<u32>),
    F32(usize),
    F64(usize),
}

/// Why an adapter could not be set up.
#[derive(Debug, PartialEq, Eq, Clone, Copy, Structural)]
pub enum SetupError {
    /// The device announced a sample format that has no encoding.
    UnsupportedFormat,
    /// The scratch storage or the window is larger than any allocation can
    /// be, or a frame has more channels than its sum has room for.
    TooLarge,
}

/// How a read of the device failed.
#[derive(Debug, PartialEq, Eq, Clone, Copy, Structural)]
pub enum ReadFault {
    /// The device has nothing new to offer yet.
    WouldBlock,
    /// The device dropped data because it was not read fast enough.
    Overrun,
    /// Any other failure.
    Other,
}

/// What is to be done after a failed read.
#[derive(Debug, PartialEq, Eq, Clone, Copy, Structural)]
pub enum Recovery {
    /// Nothing: go on with the next cycle.
    Resume,
    /// Ask the device to recover its stream, then go on with the next cycle.
    RecoverStream,
    /// Give the failure to whoever runs the capture.
    Fatal,
}

/// The amplitudes of a run of samples.
pub open spec fn normals<I: Normal<Amplitude>>(samples: Seq<I>) -> Seq<Amplitude> {
    Seq::new(samples.len(), |k: int| samples[k].normal())
}

/// The word that stands for a frame: twice the sum of its numerators.
pub open spec fn frame_word(frame: Seq<Amplitude>) -> u64 {
    (2 * sum_num(frame)) as u64
}

/// The words of the first `frames` frames of `channels` samples each.
pub open spec fn frame_words(samples: Seq<Amplitude>, channels: nat, frames: nat) -> Seq<u64> {
    Seq::new(frames, |i: int| frame_word(samples.subrange(i * channels, (i + 1) * channels)))
}

/// How many frames a read takes from scratch storage of `len` samples when
/// the device reports `frames`: no more than the storage holds in full.
pub open spec fn frames_taken(len: nat, channels: nat, frames: nat) -> nat {
    if frames < len / channels {
        frames
    } else {
        len / channels
    }
}

/// The most samples of an encoding that storage can hold: no allocation is
/// larger than `isize::MAX` bytes.
pub open spec fn storage_limit(encoding: Encoding) -> nat {
    ((isize::MAX as int) / (encoding.width() as int)) as nat
}

/// The length that scratch storage of `len` samples grows to: twice as
/// long, or as long as storage can be where twice does not fit, and never
/// shorter.
pub open spec fn grown(encoding: Encoding, len: nat) -> nat {
    if len >= storage_limit(encoding) {
        len
    } else if len == 0 {
        1
    } else if 2 * len > storage_limit(encoding) {
        storage_limit(encoding)
    } else {
        2 * len
    }
}

/// The number of amplitudes in a window of `millis` milliseconds at `rate`
/// samples a second: rounded to the nearest, halves up, and at least one.
pub open spec fn window_capacity(rate: nat, millis: nat) -> nat {
    if (rate * millis + 500) / 1000 < 1 {
        1
    } else {
        ((rate * millis + 500) / 1000) as nat
    }
}

/// What the words of a window are fractions of: twice the channels times
/// the width of the encoding's range. Zero for the floating encodings,
/// whose words are no fractions.
pub open spec fn scale_of(encoding: Encoding, channels: nat) -> nat {
    (2 * channels * encoding.span()) as nat
}

/// The neutral word of a window: one half of the scale for an integer
/// encoding, zero for a floating one.
pub open spec fn neutral_of(encoding: Encoding, channels: nat) -> nat {
    (channels * encoding.span()) as nat
}

/// Pushes the value until the vector has `target` items.
fn fill_to<T: Copy>(storage: &mut Vec<T>, value: T, target: usize)
    requires
        old(storage)@.len() <= target,
    ensures
        final(storage)@ == old(storage)@ + Seq::new(
            (target - old(storage)@.len()) as nat,
            |k: int| value,
        ),
{
    let ghost before = storage@;
    while storage.len() < target
        invariant
            before.len() <= storage@.len() <= target,
            storage@ =~= before + Seq::new((storage@.len() - before.len()) as nat, |k: int| value),
        decreases target - storage@.len(),
    {
        storage.push(value);
    }
    assert(storage@ =~= before + Seq::new((target - before.len()) as nat, |k: int| value));
}

/// Normalises the samples of the frames that a read delivered, reduces each
/// frame to its word and appends the words to the window.
fn read_into_buf<I: Normal<Amplitude> + Copy>(
    buf: &mut SlidingBuffer,
    scratch: &Vec<I>,
    frames: usize,
    num_channels: usize,
) -> (taken: usize)
    requires
        old(buf).wf(),
        0 < num_channels <= MAX_CHANNELS,
        forall|k: int|
            0 <= k < scratch@.len() ==> (#[trigger] scratch@[k]).normal().num
                <= scratch@[k].normal().den && scratch@[k].normal().den <= 0xffff_ffff,
        common_denominator(normals(scratch@)),
    ensures
        final(buf).wf(),
        final(buf).cap() == old(buf).cap(),
        final(buf).neutral_word() == old(buf).neutral_word(),
        taken == frames_taken(scratch@.len(), num_channels as nat, frames as nat),
        final(buf)@ == keep_last(
            old(buf)@ + frame_words(normals(scratch@), num_channels as nat, taken as nat),
            old(buf).cap(),
        ),
{
    let whole = scratch.len() / num_channels;
    let taken = if frames < whole {
        frames
    } else {
        whole
    };
    assert(taken * num_channels <= scratch@.len()) by (nonlinear_arith)
        requires
            taken <= whole,
            whole == scratch@.len() / (num_channels as nat),
            num_channels > 0,
    ;
    let count = taken * num_channels;
    let ghost all = normals(scratch@);
    let mut amplitudes: Vec<Amplitude> = Vec::new();
    let mut i: usize = 0;
    while i < count
        invariant
            i <= count <= scratch@.len(),
            all == normals(scratch@),
            amplitudes@ =~= all.subrange(0, i as int),
        decreases count - i,
    {
        amplitudes.push(scratch[i].normalize());
        i = i + 1;
    }
    let chunks = chunked(&amplitudes, num_channels);
    assert(chunk_count(count as nat, num_channels as nat) == taken) by (nonlinear_arith)
        requires
            count == taken * num_channels,
            num_channels > 0,
    ;
    let mut words: Vec<u64> = Vec::new();
    let mut j: usize = 0;
    while j < chunks.len()
        invariant
            j <= chunks@.len() == taken,
            count == taken * num_channels,
            count <= scratch@.len(),
            0 < num_channels <= MAX_CHANNELS,
            all == normals(scratch@),
            amplitudes@ == all.subrange(0, count as int),
            forall|k: int|
                0 <= k < all.len() ==> (#[trigger] all[k]).num <= all[k].den && all[k].den
                    <= 0xffff_ffff,
            common_denominator(all),
            forall|k: int|
                0 <= k < chunks@.len() ==> (#[trigger] chunks@[k])@ == chunk_at(
                    amplitudes@,
                    num_channels as nat,
                    k,
                ),
            words@ =~= frame_words(all, num_channels as nat, j as nat),
        decreases chunks@.len() - j,
    {
        let frame = &chunks[j];
        proof {
            assert((j + 1) * num_channels <= count && j * num_channels + num_channels == (j + 1)
                * num_channels && 0 <= j * num_channels) by (nonlinear_arith)
                requires
                    j < taken,
                    count == taken * num_channels,
                    num_channels > 0,
            ;
            assert(frame@ =~= all.subrange(j * num_channels, (j + 1) * num_channels));
            assert forall|k: int| 0 <= k < frame@.len() implies (#[trigger] frame@[k]).den
                == frame@[0].den && frame@[k].num <= 0xffff_ffff by {
                assert(frame@[k] == all[j * num_channels + k]);
                assert(frame@[0] == all[j * num_channels + 0]);
            }
            lemma_sum_bounded(frame@, 0xffff_ffff);
            assert(frame@.len() * 0xffff_ffff <= 0x7fff_ffff * 0xffff_ffff && frame@.len()
                * frame@[0].den <= 0x7fff_ffff * 0xffff_ffff) by (nonlinear_arith)
                requires
                    frame@.len() <= 0x7fff_ffff,
                    frame@[0].den <= 0xffff_ffff,
            ;
        }
        let reduced = average(frame);
        words.push(2 * reduced.num);
        j = j + 1;
    }
    buf.extend(&words);
    taken
}

impl InputBuffer {
    /// The encoding of the samples that the storage is for.
    pub open spec fn encoding(self) -> Encoding {
        match self {
            InputBuffer::I8(_) => Encoding::I8,
            InputBuffer::U8(_) => Encoding::U8,
            InputBuffer::I16(_) => Encoding::I16,
            InputBuffer::U16(_) => Encoding::U16,
            InputBuffer::I32(_) => Encoding::I32,
            InputBuffer::U32(_) => Encoding::U32,
            InputBuffer::F32(_) => Encoding::F32,
            InputBuffer::F64(_) => Encoding::F64,
        }
    }

    /// The number of samples that the storage has room for.
    pub open spec fn size(self) -> nat {
        match self {
            InputBuffer::I8(storage) => storage@.len(),
            InputBuffer::U8(storage) => storage@.len(),
            InputBuffer::I16(storage) => storage@.len(),
            InputBuffer::U16(storage) => storage@.len(),
            InputBuffer::I32(storage) => storage@.len(),
            InputBuffer::U32(storage) => storage@.len(),
            InputBuffer::F32(len) => len as nat,
            InputBuffer::F64(len) => len as nat,
        }
    }

    /// The samples in the storage as integers; none for the floating
    /// encodings.
    pub open spec fn samples(self) -> Seq<int> {
        match self {
            InputBuffer::I8(storage) => storage@.map_values(|s: i8| s as int),
            InputBuffer::U8(storage) => storage@.map_values(|s: u8| s as int),
            InputBuffer::I16(storage) => storage@.map_values(|s: i16| s as int),
            InputBuffer::U16(storage) => storage@.map_values(|s: u16| s as int),
            InputBuffer::I32(storage) => storage@.map_values(|s: i32| s as int),
            InputBuffer::U32(storage) => storage@.map_values(|s: u32| s as int),
            InputBuffer::F32(_) => Seq::empty(),
            InputBuffer::F64(_) => Seq::empty(),
        }
    }

    /// The amplitudes of the samples in the storage, each normalised in the
    /// encoding of the storage; none for the floating encodings.
    pub open spec fn amplitudes(self) -> Seq<Amplitude> {
        Seq::new(self.samples().len(), |k: int| normalized(self.encoding(), self.samples()[k]))
    }

    /// Storage for `len` samples of the encoding, all zero. More samples
    /// than [`storage_limit`] cannot be allocated.
    pub fn new(encoding: Encoding, len: usize) -> (storage: InputBuffer)
        requires
            len <= storage_limit(encoding),
        ensures
            storage.encoding() == encoding,
            storage.size() == len,
            encoding.integral() ==> storage.samples() =~= Seq::new(len as nat, |k: int| 0int),
    {
        match encoding {
            Encoding::I8 => {
                let mut storage: Vec<i8> = Vec::new();
                fill_to(&mut storage, 0, len);
                InputBuffer::I8(storage)
            },
            Encoding::U8 => {
                let mut storage: Vec<u8> = Vec::new();
                fill_to(&mut storage, 0, len);
                InputBuffer::U8(storage)
            },
            Encoding::I16 => {
                let mut storage: Vec<i16> = Vec::new();
                fill_to(&mut storage, 0, len);
                InputBuffer::I16(storage)
            },
            Encoding::U16 => {
                let mut storage: Vec<u16> = Vec::new();
                fill_to(&mut storage, 0, len);
                InputBuffer::U16(storage)
            },
            Encoding::I32 => {
                let mut storage: Vec<i32> = Vec::new();
                fill_to(&mut storage, 0, len);
                InputBuffer::I32(storage)
            },
            Encoding::U32 => {
                let mut storage: Vec<u32> = Vec::new();
                fill_to(&mut storage, 0, len);
                InputBuffer::U32(storage)
            },
            Encoding::F32 => InputBuffer::F32(len),
            Encoding::F64 => InputBuffer::F64(len),
        }
    }

    /// The encoding of the samples that the storage is for.
    pub fn encoding_of(&self) -> (encoding: Encoding)
        ensures
            encoding == self.encoding(),
    {
        match self {
            InputBuffer::I8(_) => Encoding::I8,
            InputBuffer::U8(_) => Encoding::U8,
            InputBuffer::I16(_) => Encoding::I16,
            InputBuffer::U16(_) => Encoding::U16,
            InputBuffer::I32(_) => Encoding::I32,
            InputBuffer::U32(_) => Encoding::U32,
            InputBuffer::F32(_) => Encoding::F32,
            InputBuffer::F64(_) => Encoding::F64,
        }
    }

    /// The number of samples that the storage has room for.
    pub fn len(&self) -> (len: usize)
        ensures
            len == self.size(),
    {
        match self {
            InputBuffer::I8(storage) => storage.len(),
            InputBuffer::U8(storage) => storage.len(),
            InputBuffer::I16(storage) => storage.len(),
            InputBuffer::U16(storage) => storage.len(),
            InputBuffer::I32(storage) => storage.len(),
            InputBuffer::U32(storage) => storage.len(),
            InputBuffer::F32(len) => *len,
            InputBuffer::F64(len) => *len,
        }
    }

    /// Makes room for more samples after the device overran: the storage
    /// grows to [`grown`] of its length, which is longer unless the storage
    /// is as long as storage can be. What it held stays, and the new
    /// samples are zero.
    pub fn increase_size(&mut self)
        ensures
            final(self).encoding() == old(self).encoding(),
            final(self).size() == grown(old(self).encoding(), old(self).size()),
            final(self).size() >= old(self).size(),
            old(self).size() < storage_limit(old(self).encoding()) ==> final(self).size() > old(
                self,
            ).size(),
            final(self).samples() =~= old(self).samples() + Seq::new(
                (final(self).samples().len() - old(self).samples().len()) as nat,
                |k: int| 0int,
            ),
    {
        match self {
            InputBuffer::I8(storage) => {
                let target = grown_len(Encoding::I8, storage.len());
                fill_to(storage, 0, target);
            },
            InputBuffer::U8(storage) => {
                let target = grown_len(Encoding::U8, storage.len());
                fill_to(storage, 0, target);
            },
            InputBuffer::I16(storage) => {
                let target = grown_len(Encoding::I16, storage.len());
                fill_to(storage, 0, target);
            },
            InputBuffer::U16(storage) => {
                let target = grown_len(Encoding::U16, storage.len());
                fill_to(storage, 0, target);
            },
            InputBuffer::I32(storage) => {
                let target = grown_len(Encoding::I32, storage.len());
                fill_to(storage, 0, target);
            },
            InputBuffer::U32(storage) => {
                let target = grown_len(Encoding::U32, storage.len());
                fill_to(storage, 0, target);
            },
            InputBuffer::F32(len) => {
                *len = grown_len(Encoding::F32, *len);
            },
            InputBuffer::F64(len) => {
                *len = grown_len(Encoding::F64, *len);
            },
        }
    }
}

/// The most samples of an encoding that storage can hold.
pub fn max_samples(encoding: Encoding) -> (limit: usize)
    ensures
        limit == storage_limit(encoding),
        limit > 0,
{
    (isize::MAX as usize) / encoding.bytes()
}

/// The length that scratch storage of `len` samples grows to.
pub fn grown_len(encoding: Encoding, len: usize) -> (target: usize)
    ensures
        target == grown(encoding, len as nat),
        target >= len,
        len < storage_limit(encoding) ==> len < target <= storage_limit(encoding),
{
    let limit = max_samples(encoding);
    if len >= limit {
        len
    } else if len == 0 {
        1
    } else if len > limit / 2 {
        limit
    } else {
        2 * len
    }
}

/// Scratch storage never shrinks, and it grows as long as it is shorter
/// than storage can be.
pub proof fn lemma_grown_never_shrinks(encoding: Encoding, len: nat)
    ensures
        grown(encoding, len) >= len,
        len < storage_limit(encoding) ==> len < grown(encoding, len) <= storage_limit(encoding),
{
}

/// A frequency in hertz as an exact fraction `num / den`.
#[derive(Debug, PartialEq, Eq, Clone, Copy, Structural)]
pub struct Frequency {
    pub num: u128,
    pub den: u64,
}

/// The adapter between a capturing device and the sliding window.
pub struct Input {
    /// The scratch storage that the device is read into.
    pub source: InputBuffer,
    buf: SlidingBuffer,
    num_channels: usize,
    sample_rate: u32,
}

impl Input {
    /// The window is well formed, a frame has at least one channel and the
    /// device takes at least one sample a second.
    pub closed spec fn wf(&self) -> bool {
        &&& self.buf.wf()
        &&& 0 < self.num_channels <= MAX_CHANNELS
        &&& 0 < self.sample_rate
    }

    /// The scratch storage.
    pub closed spec fn scratch(&self) -> InputBuffer {
        self.source
    }

    /// The sliding window.
    pub closed spec fn buffer(&self) -> SlidingBuffer {
        self.buf
    }

    /// The number of channels in a frame.
    pub closed spec fn channels(&self) -> nat {
        self.num_channels as nat
    }

    /// The number of frames that the device takes in a second.
    pub closed spec fn rate(&self) -> nat {
        self.sample_rate as nat
    }

    /// Whether a device that runs with the given parameters can be set up.
    ///
    /// Its format has to have an encoding. With a period, a channel count
    /// and a rate below one counted as one, a frame must not have more than
    /// [`MAX_CHANNELS`] channels, a period of frames has to fit into
    /// storage (see [`storage_limit`]) and the window has to be
    /// [`allocatable`].
    pub open spec fn accepts(
        format: SampleFormat,
        period_size: i64,
        channels: u32,
        rate: u32,
        buffer_millis: usize,
    ) -> Result<(), SetupError> {
        let frames: int = if period_size < 1 {
            1
        } else {
            period_size as int
        };
        let width: int = if channels < 1 {
            1
        } else {
            channels as int
        };
        let speed: nat = if rate < 1 {
            1
        } else {
            rate as nat
        };
        if Encoding::of_format(format) is None {
            Err(SetupError::UnsupportedFormat)
        } else if width > MAX_CHANNELS || frames * width > storage_limit(
            Encoding::of_format(format).unwrap(),
        ) || !allocatable(window_capacity(speed, buffer_millis as nat)) {
            Err(SetupError::TooLarge)
        } else {
            Ok(())
        }
    }

    /// An adapter for a device that negotiated the given parameters.
    ///
    /// A period, a channel count or a rate below one counts as one. The
    /// scratch storage holds one period of frames. The window holds
    /// `buffer_millis` milliseconds of the capture, is empty, and is padded
    /// with the neutral word of the encoding.
    pub fn from_params(
        format: SampleFormat,
        period_size: i64,
        channels: u32,
        rate: u32,
        buffer_millis: usize,
    ) -> (r: Result<Input, SetupError>)
        ensures
            r is Ok <==> Input::accepts(format, period_size, channels, rate, buffer_millis) is Ok,
            r matches Err(e) ==> Input::accepts(format, period_size, channels, rate, buffer_millis)
                == Err::<(), SetupError>(e),
            r matches Ok(input) ==> {
                &&& input.wf()
                &&& Some(input.scratch().encoding()) == Encoding::of_format(format)
                &&& input.scratch().size() == (if period_size < 1 {
                    1
                } else {
                    period_size as int
                }) * input.channels()
                &&& input.channels() == (if channels < 1 {
                    1
                } else {
                    channels as nat
                })
                &&& input.rate() == (if rate < 1 {
                    1
                } else {
                    rate as nat
                })
                &&& input.buffer()@ == Seq::<u64>::empty()
                &&& input.buffer().cap() == window_capacity(input.rate(), buffer_millis as nat)
                &&& input.buffer().neutral_word() == neutral_of(
                    input.scratch().encoding(),
                    input.channels(),
                )
            },
    {
        let encoding = match Encoding::from_format(format) {
            Some(encoding) => encoding,
            None => {
                return Err(SetupError::UnsupportedFormat);
            },
        };
        let frames: u128 = if period_size < 1 {
            1
        } else {
            period_size as u128
        };
        let width: u32 = if channels < 1 {
            1
        } else {
            channels
        };
        let speed: u32 = if rate < 1 {
            1
        } else {
            rate
        };
        if width as u128 > MAX_CHANNELS as u128 {
            return Err(SetupError::TooLarge);
        }
        assert(frames * (width as u128) <= 0x8000_0000_0000_0000 * 0x8000_0000) by (nonlinear_arith)
            requires
                frames <= 0x8000_0000_0000_0000,
                width <= 0x8000_0000,
        ;
        let scratch: u128 = frames * (width as u128);
        if scratch > max_samples(encoding) as u128 {
            return Err(SetupError::TooLarge);
        }
        assert((speed as u128) * (buffer_millis as u128) <= 0xffff_ffff * 0xffff_ffff_ffff_ffff)
            by (nonlinear_arith)
            requires
                speed <= 0xffff_ffff,
                buffer_millis <= 0xffff_ffff_ffff_ffff,
        ;
        let rounded: u128 = ((speed as u128) * (buffer_millis as u128) + 500) / 1000;
        let capacity: u128 = if rounded < 1 {
            1
        } else {
            rounded
        };
        if capacity > usize::MAX as u128 || !can_allocate(capacity as usize) {
            return Err(SetupError::TooLarge);
        }
        let range = encoding.range();
        assert((width as u64) * range <= 0x7fff_ffff * 0xffff_ffff) by (nonlinear_arith)
            requires
                width <= 0x7fff_ffff,
                range <= 0xffff_ffff,
        ;
        let neutral: u64 = (width as u64) * range;
        Ok(
            Input {
                source: InputBuffer::new(encoding, scratch as usize),
                buf: SlidingBuffer::new(capacity as usize, neutral),
                num_channels: width as usize,
                sample_rate: speed,
            },
        )
    }

    /// Takes in the frames that a read of the device delivered into the
    /// scratch storage.
    ///
    /// `frames` is the number of frames the device reported; no more are
    /// taken than the storage holds in full. Each sample is normalised, each
    /// frame is reduced to its word, and the words are appended to the
    /// window, oldest first. Returns the number of frames taken. Storage of
    /// a floating encoding holds no samples, so nothing is taken from it.
    pub fn read(&mut self, frames: usize) -> (taken: usize)
        requires
            old(self).wf(),
        ensures
            final(self).wf(),
            final(self).scratch() == old(self).scratch(),
            final(self).channels() == old(self).channels(),
            final(self).rate() == old(self).rate(),
            final(self).buffer().cap() == old(self).buffer().cap(),
            final(self).buffer().neutral_word() == old(self).buffer().neutral_word(),
            taken == frames_taken(
                old(self).scratch().samples().len(),
                old(self).channels(),
                frames as nat,
            ),
            final(self).buffer()@ == keep_last(
                old(self).buffer()@ + frame_words(
                    old(self).scratch().amplitudes(),
                    old(self).channels(),
                    taken as nat,
                ),
                old(self).buffer().cap(),
            ),
    {
        let numch = self.num_channels;
        match &self.source {
            InputBuffer::I8(scratch) => {
                assert(normals(scratch@) =~= self.source.amplitudes());
                assert(common_denominator(normals(scratch@)));
                read_into_buf(&mut self.buf, scratch, frames, numch)
            },
            InputBuffer::U8(scratch) => {
                assert(normals(scratch@) =~= self.source.amplitudes());
                assert(common_denominator(normals(scratch@)));
                read_into_buf(&mut self.buf, scratch, frames, numch)
            },
            InputBuffer::I16(scratch) => {
                assert(normals(scratch@) =~= self.source.amplitudes());
                assert(common_denominator(normals(scratch@)));
                read_into_buf(&mut self.buf, scratch, frames, numch)
            },
            InputBuffer::U16(scratch) => {
                assert(normals(scratch@) =~= self.source.amplitudes());
                assert(common_denominator(normals(scratch@)));
                read_into_buf(&mut self.buf, scratch, frames, numch)
            },
            InputBuffer::I32(scratch) => {
                assert(normals(scratch@) =~= self.source.amplitudes());
                assert(common_denominator(normals(scratch@)));
                read_into_buf(&mut self.buf, scratch, frames, numch)
            },
            InputBuffer::U32(scratch) => {
                assert(normals(scratch@) =~= self.source.amplitudes());
                assert(common_denominator(normals(scratch@)));
                read_into_buf(&mut self.buf, scratch, frames, numch)
            },
            InputBuffer::F32(_) => {
                proof {
                    lemma_window_length(self.buf);
                }
                assert(self.buf@ + Seq::<u64>::empty() =~= self.buf@);
                assert(frame_words(self.source.amplitudes(), numch as nat, 0) =~= Seq::<
                    u64,
                >::empty());
                0
            },
            InputBuffer::F64(_) => {
                proof {
                    lemma_window_length(self.buf);
                }
                assert(self.buf@ + Seq::<u64>::empty() =~= self.buf@);
                assert(frame_words(self.source.amplitudes(), numch as nat, 0) =~= Seq::<
                    u64,
                >::empty());
                0
            },
        }
    }

    /// Appends words that the caller reduced from frames itself, as it does
    /// for a capture in a floating encoding.
    pub fn extend(&mut self, words: &Vec<u64>)
        requires
            old(self).wf(),
        ensures
            final(self).wf(),
            final(self).scratch() == old(self).scratch(),
            final(self).channels() == old(self).channels(),
            final(self).rate() == old(self).rate(),
            final(self).buffer().cap() == old(self).buffer().cap(),
            final(self).buffer().neutral_word() == old(self).buffer().neutral_word(),
            final(self).buffer()@ == keep_last(
                old(self).buffer()@ + words@,
                old(self).buffer().cap(),
            ),
    {
        self.buf.extend(words);
    }

    /// Makes room for more frames in a read: see
    /// [`InputBuffer::increase_size`].
    pub fn expand_input_buffer(&mut self)
        requires
            old(self).wf(),
        ensures
            final(self).wf(),
            final(self).buffer() == old(self).buffer(),
            final(self).channels() == old(self).channels(),
            final(self).rate() == old(self).rate(),
            final(self).scratch().encoding() == old(self).scratch().encoding(),
            final(self).scratch().size() == grown(
                old(self).scratch().encoding(),
                old(self).scratch().size(),
            ),
            final(self).scratch().size() >= old(self).scratch().size(),
            old(self).scratch().size() < storage_limit(old(self).scratch().encoding())
                ==> final(self).scratch().size() > old(self).scratch().size(),
            final(self).scratch().samples() =~= old(self).scratch().samples() + Seq::new(
                (final(self).scratch().samples().len() - old(self).scratch().samples().len()) as nat,
                |k: int| 0int,
            ),
    {
        self.source.increase_size();
    }

    /// Decides what follows a failed read.
    ///
    /// A device with nothing to offer is no failure: the adapter stays as
    /// it is and the capture resumes. After an overrun the scratch storage
    /// grows, unless it is as long as storage can be, and the device is to
    /// recover its stream. Anything else is fatal and leaves the adapter as
    /// it is.
    pub fn recover(&mut self, fault: ReadFault) -> (r: Recovery)
        requires
            old(self).wf(),
        ensures
            final(self).wf(),
            r == recovery_for(fault),
            final(self).buffer() == old(self).buffer(),
            final(self).channels() == old(self).channels(),
            final(self).rate() == old(self).rate(),
            fault != ReadFault::Overrun ==> final(self).scratch() == old(self).scratch(),
            fault == ReadFault::Overrun ==> {
                &&& final(self).scratch().encoding() == old(self).scratch().encoding()
                &&& final(self).scratch().size() == grown(
                    old(self).scratch().encoding(),
                    old(self).scratch().size(),
                )
                &&& old(self).scratch().size() < storage_limit(old(self).scratch().encoding())
                    ==> final(self).scratch().size() > old(self).scratch().size()
                &&& final(self).scratch().samples() =~= old(self).scratch().samples() + Seq::new(
                    (final(self).scratch().samples().len() - old(
                        self,
                    ).scratch().samples().len()) as nat,
                    |k: int| 0int,
                )
            },
    {
        match fault {
            ReadFault::WouldBlock => Recovery::Resume,
            ReadFault::Overrun => {
                self.expand_input_buffer();
                Recovery::RecoverStream
            },
            ReadFault::Other => Recovery::Fatal,
        }
    }

    /// The length of the window that [`Input::get_frames`] returns.
    pub fn buf_len(&self) -> (len: usize)
        requires
            self.wf(),
        ensures
            len == self.buffer().cap(),
            0 < len,
            allocatable(len as nat),
    {
        self.buf.capacity()
    }

    /// The number of channels in a frame.
    pub fn num_channels(&self) -> (channels: usize)
        requires
            self.wf(),
        ensures
            channels == self.channels(),
            0 < channels <= MAX_CHANNELS,
    {
        self.num_channels
    }

    /// The number of frames that the device takes in a second.
    pub fn sample_rate(&self) -> (rate: u32)
        requires
            self.wf(),
        ensures
            rate == self.rate(),
            0 < rate,
    {
        self.sample_rate
    }

    /// What the words of the window are fractions of: see [`scale_of`].
    pub fn scale(&self) -> (scale: u64)
        requires
            self.wf(),
        ensures
            scale == scale_of(self.scratch().encoding(), self.channels()),
    {
        let range = self.source.encoding_of().range();
        assert(2 * (self.num_channels as u64) * range <= 2 * 0x7fff_ffff * 0xffff_ffff)
            by (nonlinear_arith)
            requires
                self.num_channels <= 0x7fff_ffff,
                range <= 0xffff_ffff,
        ;
        2 * (self.num_channels as u64) * range
    }

    /// The frequency that the bin `index` of a spectrum of the window
    /// stands for: `index` times the sample rate over the length of the
    /// window.
    pub fn frequency_at(&self, index: usize) -> (frequency: Frequency)
        requires
            self.wf(),
        ensures
            frequency.num == index * self.rate(),
            frequency.den == self.buffer().cap(),
            frequency.den > 0,
    {
        assert((index as u128) * (self.sample_rate as u128) <= 0xffff_ffff_ffff_ffff * 0xffff_ffff)
            by (nonlinear_arith)
            requires
                index <= 0xffff_ffff_ffff_ffff,
                self.sample_rate <= 0xffff_ffff,
        ;
        Frequency {
            num: (index as u128) * (self.sample_rate as u128),
            den: self.buf.capacity() as u64,
        }
    }

    /// The current window, as long as [`Input::buf_len`]: the words held,
    /// oldest first, after the neutral word for those that are missing.
    pub fn get_frames(&self) -> (window: Vec<u64>)
        requires
            self.wf(),
        ensures
            window@ == self.buffer().window(),
            window@.len() == self.buffer().cap(),
    {
        self.buf.snapshot()
    }

    /// Copies the current window over the start of `data`, as far as both
    /// reach. The rest of `data` stays as it is.
    pub fn clone_fft_data(&self, data: &mut Vec<u64>)
        requires
            self.wf(),
        ensures
            final(data)@.len() == old(data)@.len(),
            forall|i: int|
                0 <= i < old(data)@.len() ==> final(data)@[i] == (if i < self.buffer().cap() {
                    self.buffer().window()[i]
                } else {
                    old(data)@[i]
                }),
    {
        let window = self.buf.snapshot();
        let mut i: usize = 0;
        while i < window.len() && i < data.len()
            invariant
                window@ == self.buffer().window(),
                window@.len() == self.buffer().cap(),
                data@.len() == old(data)@.len(),
                i <= window@.len(),
                i <= data@.len(),
                forall|k: int|
                    0 <= k < data@.len() ==> data@[k] == (if k < i {
                        window@[k]
                    } else {
                        old(data)@[k]
                    }),
            decreases window@.len() - i,
        {
            data.set(i, window[i]);
            i = i + 1;
        }
    }
}

/// What follows a failed read.
pub open spec fn recovery_for(fault: ReadFault) -> Recovery {
    match fault {
        ReadFault::WouldBlock => Recovery::Resume,
        ReadFault::Overrun => Recovery::RecoverStream,
        ReadFault::Other => Recovery::Fatal,
    }
}

/// The samples of one frame of an integer encoding give a word that is
/// their mean amplitude as a fraction of the scale: between zero and the
/// scale, and in the ratio of the summed numerators to the channels times
/// the width of the range. The neutral word is one half of the scale.
pub proof fn lemma_word_is_frame_mean(encoding: Encoding, frame: Seq<Amplitude>)
    requires
        encoding.integral(),
        forall|j: int|
            0 <= j < frame.len() ==> (#[trigger] frame[j]).den == encoding.span() && frame[j].num
                <= frame[j].den,
        2 * frame.len() * encoding.span() <= u64::MAX,
    ensures
        common_denominator(frame),
        frame_word(frame) == 2 * sum_num(frame),
        0 <= frame_word(frame) <= scale_of(encoding, frame.len()),
        frame_word(frame) * (frame.len() * encoding.span()) == sum_num(frame) * scale_of(
            encoding,
            frame.len(),
        ),
        2 * neutral_of(encoding, frame.len()) == scale_of(encoding, frame.len()),
{
    lemma_sum_bounded(frame, encoding.span());
    let n = sum_num(frame);
    let len = frame.len() as int;
    let span = encoding.span();
    assert(2 * len * span == 2 * (len * span)) by (nonlinear_arith);
    assert((2 * n) * (len * span) == n * (2 * (len * span))) by (nonlinear_arith);
    assert(len * span >= 0) by (nonlinear_arith)
        requires
            len >= 0,
            span >= 0,
    ;
}

} // verus!
