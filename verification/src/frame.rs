//! Frames: the samples of all channels at one sampling instant, and their
//! reduction to one amplitude.

use crate::sample::Amplitude;
use itertools::Itertools;
use vstd::prelude::*;

verus! {

/// The sum of the numerators of a frame.
pub open spec fn sum_num(frame: Seq<Amplitude>) -> int
    decreases frame.len(),
{
    if frame.len() == 0 {
        0
    } else {
        sum_num(frame.drop_last()) + frame.last().num
    }
}

/// The arithmetic mean of a frame of amplitudes over a common denominator:
/// the sum of the numerators over the denominator times the number of
/// amplitudes.
pub open spec fn mean(frame: Seq<Amplitude>) -> Amplitude {
    Amplitude { num: sum_num(frame) as u64, den: (frame.len() * frame[0].den) as u64 }
}

/// Whether all amplitudes of a frame have the denominator of the first.
pub open spec fn common_denominator(frame: Seq<Amplitude>) -> bool {
    forall|j: int| 0 <= j < frame.len() ==> (#[trigger] frame[j]).den == frame[0].den
}

/// The number of chunks that `len` items fall into when each chunk takes
/// `size` of them and the last takes what is left.
pub open spec fn chunk_count(len: nat, size: nat) -> nat {
    ((len + size - 1) / (size as int)) as nat
}

/// The `index`-th chunk of `items` cut into chunks of `size`.
pub open spec fn chunk_at(items: Seq<Amplitude>, size: nat, index: int) -> Seq<Amplitude> {
    items.subrange(
        index * size,
        if (index + 1) * size <= items.len() {
            (index + 1) * size
        } else {
            items.len() as int
        },
    )
}

/// `Itertools::chunks`: cuts the items, in their order, into chunks of
/// `size` items each; the last chunk is shorter if the items run out, and
/// no items give no chunk. The call panics on a size of zero.
#[verifier::external_body]
pub(crate) fn chunked(items: &Vec<Amplitude>, size: usize) -> (chunks: Vec<Vec<Amplitude>>)
    requires
        size > 0,
    ensures
        chunks@.len() == chunk_count(items@.len(), size as nat),
        forall|i: int|
            0 <= i < chunks@.len() ==> (#[trigger] chunks@[i])@ == chunk_at(
                items@,
                size as nat,
                i,
            ),
{
    let groups = items.iter().cloned().chunks(size);
    let chunks = groups.into_iter().map(|chunk| chunk.collect()).collect();
    chunks
}

/// The sum of a frame's numerators grows with the frame.
pub proof fn lemma_sum_grows(frame: Seq<Amplitude>, count: int)
    requires
        0 <= count <= frame.len(),
    ensures
        0 <= sum_num(frame.subrange(0, count)) <= sum_num(frame),
    decreases frame.len() - count,
{
    if count == frame.len() {
        assert(frame.subrange(0, count) =~= frame);
        lemma_sum_nonnegative(frame);
    } else {
        lemma_sum_grows(frame, count + 1);
        lemma_sum_nonnegative(frame.subrange(0, count));
        let longer = frame.subrange(0, count + 1);
        assert(longer.drop_last() =~= frame.subrange(0, count));
        assert(sum_num(longer) == sum_num(longer.drop_last()) + longer.last().num);
    }
}

/// The sum of a frame's numerators is not negative.
pub proof fn lemma_sum_nonnegative(frame: Seq<Amplitude>)
    ensures
        0 <= sum_num(frame),
    decreases frame.len(),
{
    if frame.len() > 0 {
        lemma_sum_nonnegative(frame.drop_last());
    }
}

/// The sum of numerators that are each at most `bound` is at most their
/// number times the bound.
pub proof fn lemma_sum_bounded(frame: Seq<Amplitude>, bound: int)
    requires
        forall|j: int| 0 <= j < frame.len() ==> (#[trigger] frame[j]).num <= bound,
    ensures
        0 <= sum_num(frame) <= frame.len() * bound,
    decreases frame.len(),
{
    if frame.len() > 0 {
        lemma_sum_bounded(frame.drop_last(), bound);
        assert(frame.len() * bound == (frame.len() - 1) * bound + bound) by (nonlinear_arith);
    }
}

/// The mean of fractions between zero and one over a common denominator is
/// such a fraction: its numerator is at most its denominator.
pub proof fn lemma_mean_is_a_fraction(frame: Seq<Amplitude>)
    requires
        frame.len() > 0,
        common_denominator(frame),
        forall|j: int| 0 <= j < frame.len() ==> (#[trigger] frame[j]).num <= frame[j].den,
    ensures
        0 <= sum_num(frame) <= frame.len() * frame[0].den,
{
    lemma_sum_bounded(frame, frame[0].den as int);
}

/// The arithmetic mean of a frame of amplitudes over a common denominator:
/// one amplitude that stands for all channels alike.
pub fn average(frame: &Vec<Amplitude>) -> (r: Amplitude)
    requires
        frame@.len() > 0,
        common_denominator(frame@),
        sum_num(frame@) <= u64::MAX,
        frame@.len() * frame@[0].den <= u64::MAX,
    ensures
        r == mean(frame@),
        r.den == frame@.len() * frame@[0].den,
        r.num == sum_num(frame@),
{
    let mut num: u64 = 0;
    let mut i: usize = 0;
    while i < frame.len()
        invariant
            i <= frame@.len(),
            num == sum_num(frame@.subrange(0, i as int)),
            sum_num(frame@) <= u64::MAX,
        decreases frame@.len() - i,
    {
        proof {
            lemma_sum_grows(frame@, i + 1);
            assert(frame@.subrange(0, i + 1).drop_last() =~= frame@.subrange(0, i as int));
        }
        num = num + frame[i].num;
        i = i + 1;
    }
    assert(frame@.subrange(0, i as int) =~= frame@);
    let den: u64 = (frame.len() as u64) * frame[0].den;
    Amplitude { num, den }
}

} // verus!
