//! A sliding window over the most recent amplitudes.
//!
//! The window is a ring of fixed capacity from the `advanced_collections`
//! crate. Once it is full, each amplitude that enters drives out the oldest
//! one. An amplitude is stored as one 64-bit word; what a word means is up
//! to the one who fills the window. The transform takes each amplitude as a
//! complex number whose imaginary part is zero, so only the real part is
//! kept.

use advanced_collections::circular_buffer::CircularBuffer;
use vstd::prelude::*;

verus! {

/// Whether a ring of `capacity` words can be allocated at all: the ring
/// takes one slot more than its capacity, of eight bytes each, and no
/// allocation is larger than `isize::MAX` bytes.
pub open spec fn allocatable(capacity: nat) -> bool {
    (capacity + 1) * 8 <= isize::MAX
}

/// `CircularBuffer` of the `advanced_collections` crate. Nothing inside it
/// is seen here; what it holds is spoken of through [`ring_items`] and
/// [`ring_capacity`].
#[verifier::external_type_specification]
#[verifier::external_body]
#[verifier::reject_recursive_types(T)]
pub struct ExCircularBuffer<T>(CircularBuffer<T>);

/// The items of a ring, from its front (the oldest) to its back.
pub uninterp spec fn ring_items(ring: CircularBuffer<u64>) -> Seq<u64>;

/// The number of items that a ring was made to hold.
pub uninterp spec fn ring_capacity(ring: CircularBuffer<u64>) -> nat;

/// What a ring of capacity `capacity` holds after `value` was placed at its
/// back: a full ring gives up its front item first, and a ring that can hold
/// nothing stays empty.
pub open spec fn pushed(items: Seq<u64>, capacity: nat, value: u64) -> Seq<u64> {
    if items.len() == capacity {
        if capacity == 0 {
            items
        } else {
            items.drop_first().push(value)
        }
    } else {
        items.push(value)
    }
}

/// What a ring holds after each of `values` was placed at its back in turn.
pub open spec fn pushed_all(items: Seq<u64>, capacity: nat, values: Seq<u64>) -> Seq<u64>
    decreases values.len(),
{
    if values.len() == 0 {
        items
    } else {
        pushed_all(pushed(items, capacity, values[0]), capacity, values.drop_first())
    }
}

/// The last `count` items of a sequence, or all of it if it has no more.
pub open spec fn keep_last(items: Seq<u64>, count: nat) -> Seq<u64> {
    if items.len() <= count {
        items
    } else {
        items.subrange(items.len() - count, items.len() as int)
    }
}

/// `CircularBuffer::new`: an empty ring that holds up to `capacity` items.
/// The ring allocates one slot more than its capacity; the bound leaves out
/// the capacities for which that allocation panics on its size.
#[verifier::external_body]
fn ring_new(capacity: usize) -> (ring: CircularBuffer<u64>)
    requires
        allocatable(capacity as nat),
    ensures
        ring_items(ring) == Seq::<u64>::empty(),
        ring_capacity(ring) == capacity,
{
    CircularBuffer::new(capacity)
}

/// `CircularBuffer::push_back`: places `value` at the back. A full ring
/// drops its front item to make room; a ring of capacity zero ignores the
/// call. The capacity stays as it was.
#[verifier::external_body]
fn ring_push_back(ring: &mut CircularBuffer<u64>, value: u64)
    ensures
        ring_capacity(*final(ring)) == ring_capacity(*old(ring)),
        ring_items(*final(ring)) == pushed(ring_items(*old(ring)), ring_capacity(*old(ring)), value),
{
    ring.push_back(value)
}

/// `Extend::extend` of `CircularBuffer`: calls `push_back` for each value in
/// the order given.
#[verifier::external_body]
fn ring_extend(ring: &mut CircularBuffer<u64>, values: &Vec<u64>)
    ensures
        ring_capacity(*final(ring)) == ring_capacity(*old(ring)),
        ring_items(*final(ring)) == pushed_all(
            ring_items(*old(ring)),
            ring_capacity(*old(ring)),
            values@,
        ),
{
    ring.extend(values.iter().cloned())
}

/// `CircularBuffer::len`: the number of items in the ring.
#[verifier::external_body]
fn ring_len(ring: &CircularBuffer<u64>) -> (len: usize)
    ensures
        len == ring_items(*ring).len(),
{
    ring.len()
}

/// `CircularBuffer::iter`: walks the ring from front to back; the items are
/// copied into a vector in that order.
#[verifier::external_body]
fn ring_to_vec(ring: &CircularBuffer<u64>) -> (items: Vec<u64>)
    ensures
        items@ == ring_items(*ring),
{
    ring.iter().cloned().collect()
}

/// Pushing one value keeps the last `capacity` of what was held and the
/// value.
pub proof fn lemma_pushed_keeps_last(items: Seq<u64>, capacity: nat, value: u64)
    requires
        items.len() <= capacity,
    ensures
        pushed(items, capacity, value) =~= keep_last(items.push(value), capacity),
        pushed(items, capacity, value).len() <= capacity,
{
}

/// Pushing values one after another keeps the last `capacity` of what was
/// held followed by the values, in their order.
pub proof fn lemma_pushed_all_keeps_last(items: Seq<u64>, capacity: nat, values: Seq<u64>)
    requires
        items.len() <= capacity,
    ensures
        pushed_all(items, capacity, values) =~= keep_last(items + values, capacity),
        pushed_all(items, capacity, values).len() <= capacity,
    decreases values.len(),
{
    if values.len() == 0 {
        assert(items + values =~= items);
    } else {
        let next = pushed(items, capacity, values[0]);
        lemma_pushed_keeps_last(items, capacity, values[0]);
        lemma_pushed_all_keeps_last(next, capacity, values.drop_first());
        assert(items.push(values[0]) + values.drop_first() =~= items + values);
        assert(keep_last(next + values.drop_first(), capacity) =~= keep_last(
            items + values,
            capacity,
        ));
    }
}

/// The most recent amplitudes of a capture, oldest first.
///
/// The capacity and the neutral word are fixed when the buffer is made. The
/// buffer never holds more than its capacity.
pub struct SlidingBuffer {
    ring: CircularBuffer<u64>,
    capacity: usize,
    neutral: u64,
}

impl View for SlidingBuffer {
    type V = Seq<u64>;

    /// The amplitudes held, oldest first.
    closed spec fn view(&self) -> Seq<u64> {
        ring_items(self.ring)
    }
}

/// Whether a ring of `capacity` words can be allocated: see
/// [`allocatable`].
pub fn can_allocate(capacity: usize) -> (r: bool)
    ensures
        r == allocatable(capacity as nat),
{
    capacity < (isize::MAX as usize) / 8
}

impl SlidingBuffer {
    /// The buffer holds no more than its capacity, which is not zero.
    pub closed spec fn wf(&self) -> bool {
        &&& ring_capacity(self.ring) == self.capacity
        &&& ring_items(self.ring).len() <= self.capacity
        &&& 0 < self.capacity
        &&& allocatable(self.capacity as nat)
    }

    /// The number of amplitudes the buffer was made to hold.
    pub closed spec fn cap(&self) -> nat {
        self.capacity as nat
    }

    /// The word that stands in for amplitudes that have not arrived yet.
    pub closed spec fn neutral_word(&self) -> u64 {
        self.neutral
    }

    /// The window as the transform takes it: always as long as the
    /// capacity, the amplitudes held at its end, oldest first, and before
    /// them the neutral word once for each amplitude still missing.
    pub open spec fn window(&self) -> Seq<u64> {
        Seq::new((self.cap() - self@.len()) as nat, |i: int| self.neutral_word()) + self@
    }

    /// An empty buffer for `capacity` amplitudes.
    pub fn new(capacity: usize, neutral: u64) -> (buffer: SlidingBuffer)
        requires
            0 < capacity,
            allocatable(capacity as nat),
        ensures
            buffer.wf(),
            buffer@ == Seq::<u64>::empty(),
            buffer.cap() == capacity,
            buffer.neutral_word() == neutral,
    {
        SlidingBuffer { ring: ring_new(capacity), capacity, neutral }
    }

    /// Appends one amplitude. A full buffer drops its oldest one.
    pub fn push(&mut self, value: u64)
        requires
            old(self).wf(),
        ensures
            final(self).wf(),
            final(self)@ == keep_last(old(self)@.push(value), old(self).cap()),
            final(self)@ == pushed(old(self)@, old(self).cap(), value),
            final(self).cap() == old(self).cap(),
            final(self).neutral_word() == old(self).neutral_word(),
    {
        proof {
            lemma_pushed_keeps_last(self@, self.cap(), value);
        }
        ring_push_back(&mut self.ring, value);
    }

    /// Appends amplitudes in their order, as if each were pushed in turn.
    pub fn extend(&mut self, values: &Vec<u64>)
        requires
            old(self).wf(),
        ensures
            final(self).wf(),
            final(self)@ == keep_last(old(self)@ + values@, old(self).cap()),
            final(self)@ == pushed_all(old(self)@, old(self).cap(), values@),
            final(self).cap() == old(self).cap(),
            final(self).neutral_word() == old(self).neutral_word(),
    {
        proof {
            lemma_pushed_all_keeps_last(self@, self.cap(), values@);
        }
        ring_extend(&mut self.ring, values);
    }

    /// The number of amplitudes held.
    pub fn len(&self) -> (len: usize)
        requires
            self.wf(),
        ensures
            len == self@.len(),
            len <= self.cap(),
    {
        ring_len(&self.ring)
    }

    /// The number of amplitudes the buffer can hold: never zero.
    pub fn capacity(&self) -> (capacity: usize)
        requires
            self.wf(),
        ensures
            capacity == self.cap(),
            0 < capacity,
            allocatable(capacity as nat),
    {
        self.capacity
    }

    /// The word that pads a window that is not full yet.
    pub fn neutral(&self) -> (neutral: u64)
        ensures
            neutral == self.neutral_word(),
    {
        self.neutral
    }

    /// The current window, without changing the buffer: see
    /// [`SlidingBuffer::window`].
    pub fn snapshot(&self) -> (window: Vec<u64>)
        requires
            self.wf(),
        ensures
            window@ == self.window(),
            window@.len() == self.cap(),
    {
        let held = ring_to_vec(&self.ring);
        let missing = self.capacity - held.len();
        let mut window: Vec<u64> = Vec::new();
        let mut i: usize = 0;
        while i < missing
            invariant
                i <= missing,
                window@ =~= Seq::new(i as nat, |k: int| self.neutral),
            decreases missing - i,
        {
            window.push(self.neutral);
            i = i + 1;
        }
        let mut j: usize = 0;
        while j < held.len()
            invariant
                j <= held.len(),
                window@ =~= Seq::new(missing as nat, |k: int| self.neutral) + held@.subrange(
                    0,
                    j as int,
                ),
            decreases held.len() - j,
        {
            window.push(held[j]);
            j = j + 1;
        }
        assert(held@.subrange(0, held.len() as int) =~= held@);
        window
    }
}

/// A buffer that was empty keeps exactly the last `capacity` of the values
/// pushed into it, in their order, however many were pushed beyond its
/// capacity.
pub proof fn lemma_retains_last(capacity: nat, values: Seq<u64>)
    requires
        values.len() >= capacity,
    ensures
        pushed_all(Seq::<u64>::empty(), capacity, values) == values.subrange(
            values.len() - capacity,
            values.len() as int,
        ),
        pushed_all(Seq::<u64>::empty(), capacity, values).len() == capacity,
{
    lemma_pushed_all_keeps_last(Seq::<u64>::empty(), capacity, values);
    assert(Seq::<u64>::empty() + values =~= values);
    assert(values.subrange(0, values.len() as int) =~= values);
}

/// The window is as long as the capacity whatever the buffer holds: nothing
/// yet, less than its capacity, or all it can.
pub proof fn lemma_window_length(buffer: SlidingBuffer)
    requires
        buffer.wf(),
    ensures
        buffer@.len() <= buffer.cap(),
        0 < buffer.cap(),
        allocatable(buffer.cap()),
        buffer.window().len() == buffer.cap(),
        forall|i: int|
            0 <= i < buffer.cap() - buffer@.len() ==> buffer.window()[i] == buffer.neutral_word(),
        forall|i: int|
            0 <= i < buffer@.len() ==> buffer.window()[buffer.cap() - buffer@.len() + i]
                == buffer@[i],
{
}

} // verus!
