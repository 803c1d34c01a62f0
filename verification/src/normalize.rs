//! Normalisation seen from the sample: what a sample turns into, and what
//! an amplitude can be made from.

use crate::sample::normalized;
use crate::sample::Amplitude;
use crate::sample::Encoding;
use crate::sample::FromSample;
use vstd::prelude::*;

verus! {

/// A sample that normalises to a `T`.
pub trait Normal<T>: Sized {
    /// The amplitude that this sample stands for.
    spec fn normal(self) -> T;

    fn normalize(self) -> (r: T)
        ensures
            r == self.normal(),
    ;
}

/// An amplitude that can be made from a sample of type `T`.
pub trait NormalTarget<T>: Sized {
    /// The amplitude that the sample stands for.
    spec fn target_of(unnorm: T) -> Self;

    fn from_unnormalized(unnorm: T) -> (r: Self)
        ensures
            r == Self::target_of(unnorm),
    ;
}

/// An amplitude that can be made from a sample of every integer encoding.
pub trait OmniNormal: NormalTarget<i8> + NormalTarget<i16> + NormalTarget<i32> + NormalTarget<
    u8,
> + NormalTarget<u16> + NormalTarget<u32> {

}

impl<A: Normal<B>, B> NormalTarget<A> for B {
    open spec fn target_of(unnorm: A) -> B {
        unnorm.normal()
    }

    fn from_unnormalized(unnorm: A) -> (r: B) {
        unnorm.normalize()
    }
}

impl<T> OmniNormal for T where
    T: NormalTarget<i8> + NormalTarget<i16> + NormalTarget<i32> + NormalTarget<u8> + NormalTarget<
        u16,
    > + NormalTarget<u32>,
 {

}

impl Normal<Amplitude> for i8 {
    open spec fn normal(self) -> Amplitude {
        normalized(Encoding::I8, self as int)
    }

    fn normalize(self) -> (r: Amplitude) {
        Amplitude::from_sample(self)
    }
}

impl Normal<Amplitude> for u8 {
    open spec fn normal(self) -> Amplitude {
        normalized(Encoding::U8, self as int)
    }

    fn normalize(self) -> (r: Amplitude) {
        Amplitude::from_sample(self)
    }
}

impl Normal<Amplitude> for i16 {
    open spec fn normal(self) -> Amplitude {
        normalized(Encoding::I16, self as int)
    }

    fn normalize(self) -> (r: Amplitude) {
        Amplitude::from_sample(self)
    }
}

impl Normal<Amplitude> for u16 {
    open spec fn normal(self) -> Amplitude {
        normalized(Encoding::U16, self as int)
    }

    fn normalize(self) -> (r: Amplitude) {
        Amplitude::from_sample(self)
    }
}

impl Normal<Amplitude> for i32 {
    open spec fn normal(self) -> Amplitude {
        normalized(Encoding::I32, self as int)
    }

    fn normalize(self) -> (r: Amplitude) {
        Amplitude::from_sample(self)
    }
}

impl Normal<Amplitude> for u32 {
    open spec fn normal(self) -> Amplitude {
        normalized(Encoding::U32, self as int)
    }

    fn normalize(self) -> (r: Amplitude) {
        Amplitude::from_sample(self)
    }
}

} // verus!
