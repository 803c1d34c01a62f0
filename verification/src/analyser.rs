//! The dominant bin of a spectrum.
//!
//! The transform of a window is the caller's work. Of each bin it hands in
//! the magnitude as a key: an integer that orders finite magnitudes as they
//! are ordered, or nothing where the magnitude is not finite. For a finite
//! magnitude of double precision, which is never negative, the bit pattern
//! is such a key.

use crate::input::Frequency;
use crate::input::Input;
use vstd::prelude::*;

verus! {

/// The key of a magnitude of one thousandth, as the bit pattern of that
/// number in double precision: by default a bin has to exceed it to count.
pub const DEFAULT_FLOOR: u64 = 0x3F50_624D_D2F1_A9FC;

/// Whether bin `i` can be the dominant one: it is neither the constant
/// component nor in the mirrored upper half of the spectrum, its magnitude
/// is finite, and it exceeds the floor if there is one.
pub open spec fn candidate(magnitudes: Seq<Option<u64>>, floor: Option<u64>, i: int) -> bool {
    &&& 1 <= i < magnitudes.len() / 2
    &&& magnitudes[i] is Some
    &&& floor matches Some(least) ==> magnitudes[i].unwrap() > least
}

/// Whether bin `i` is the dominant one: a candidate that no candidate
/// exceeds, and the first of those that equal it.
pub open spec fn dominant(magnitudes: Seq<Option<u64>>, floor: Option<u64>, i: int) -> bool {
    &&& candidate(magnitudes, floor, i)
    &&& forall|j: int| #[trigger]
        candidate(magnitudes, floor, j) ==> magnitudes[j].unwrap() <= magnitudes[i].unwrap()
    &&& forall|j: int|
        #[trigger] candidate(magnitudes, floor, j) && magnitudes[j].unwrap()
            == magnitudes[i].unwrap() ==> i <= j
}

/// The dominant bin of a spectrum, or `None` where no bin is a candidate:
/// in a spectrum of fewer than four bins, and where every magnitude in
/// range is at or below the floor or not finite.
pub fn dominant_bin(magnitudes: &Vec<Option<u64>>, floor: Option<u64>) -> (r: Option<usize>)
    ensures
        r matches Some(i) ==> dominant(magnitudes@, floor, i as int),
        r is None <==> forall|i: int| !candidate(magnitudes@, floor, i),
{
    let half = magnitudes.len() / 2;
    let mut best: Option<usize> = None;
    let mut i: usize = 1;
    while i < half
        invariant
            1 <= i,
            half == magnitudes@.len() / 2,
            best matches Some(b) ==> b < i && candidate(magnitudes@, floor, b as int),
            best matches Some(b) ==> forall|j: int|
                j < i && #[trigger] candidate(magnitudes@, floor, j) ==> magnitudes@[j].unwrap()
                    <= magnitudes@[b as int].unwrap(),
            best matches Some(b) ==> forall|j: int|
                j < i && #[trigger] candidate(magnitudes@, floor, j) && magnitudes@[j].unwrap()
                    == magnitudes@[b as int].unwrap() ==> b <= j,
            best is None ==> forall|j: int| j < i ==> !candidate(magnitudes@, floor, j),
        decreases half - i,
    {
        if let Some(magnitude) = magnitudes[i] {
            let counts = match floor {
                Some(least) => magnitude > least,
                None => true,
            };
            if counts {
                let better = match best {
                    Some(b) => match magnitudes[b] {
                        Some(held) => magnitude > held,
                        None => true,
                    },
                    None => true,
                };
                if better {
                    best = Some(i);
                }
            }
        }
        i = i + 1;
    }
    best
}

/// The frequency of the dominant bin of a spectrum of the adapter's
/// window, or `None` where [`dominant_bin`] finds none.
pub fn dominant_frequency(input: &Input, magnitudes: &Vec<Option<u64>>, floor: Option<u64>) -> (r:
    Option<Frequency>)
    requires
        input.wf(),
    ensures
        r is None <==> forall|i: int| !candidate(magnitudes@, floor, i),
        r matches Some(frequency) ==> exists|i: int|
            {
                &&& #[trigger] dominant(magnitudes@, floor, i)
                &&& frequency.num == i * input.rate()
                &&& frequency.den == input.buffer().cap()
            },
{
    match dominant_bin(magnitudes, floor) {
        Some(index) => Some(input.frequency_at(index)),
        None => None,
    }
}

/// A spectrum has at most one dominant bin.
pub proof fn lemma_dominant_is_unique(
    magnitudes: Seq<Option<u64>>,
    floor: Option<u64>,
    i: int,
    j: int,
)
    requires
        dominant(magnitudes, floor, i),
        dominant(magnitudes, floor, j),
    ensures
        i == j,
{
}

/// A spectrum in which no magnitude in range exceeds the floor has no
/// dominant bin: silence gives no result.
pub proof fn lemma_silence_has_no_dominant(magnitudes: Seq<Option<u64>>, least: u64)
    requires
        forall|i: int|
            1 <= i < magnitudes.len() / 2 ==> (#[trigger] magnitudes[i] matches Some(m) ==> m
                <= least),
    ensures
        forall|i: int| !candidate(magnitudes, Some(least), i),
        forall|i: int| !dominant(magnitudes, Some(least), i),
{
}

/// A vector of `size` values, each of them a default value of its type.
pub fn default_vec<T: Default>(size: usize) -> (res: Vec<T>)
    ensures
        res@.len() == size,
        forall|i: int| 0 <= i < size ==> call_ensures(T::default, (), #[trigger] res@[i]),
{
    let mut res: Vec<T> = Vec::new();
    while res.len() < size
        invariant
            res@.len() <= size,
            forall|i: int| 0 <= i < res@.len() ==> call_ensures(T::default, (), #[trigger] res@[i]),
        decreases size - res@.len(),
    {
        res.push(T::default());
    }
    res
}

} // verus!
