use tuner::window::can_allocate;
use tuner::window::SlidingBuffer;

#[test]
fn new_buffer_is_empty() {
    let buffer = SlidingBuffer::new(4, 7);
    assert_eq!(buffer.len(), 0);
    assert_eq!(buffer.capacity(), 4);
    assert_eq!(buffer.neutral(), 7);
}

#[test]
fn snapshot_of_an_empty_buffer_is_all_neutral() {
    let buffer = SlidingBuffer::new(3, 9);
    assert_eq!(buffer.snapshot(), vec![9, 9, 9]);
}

#[test]
fn snapshot_pads_in_front_of_what_is_held() {
    let mut buffer = SlidingBuffer::new(4, 0);
    buffer.push(11);
    buffer.push(12);
    assert_eq!(buffer.len(), 2);
    assert_eq!(buffer.snapshot(), vec![0, 0, 11, 12]);
}

#[test]
fn full_buffer_drops_the_oldest() {
    let mut buffer = SlidingBuffer::new(3, 0);
    for value in 1..=3 {
        buffer.push(value);
    }
    assert_eq!(buffer.snapshot(), vec![1, 2, 3]);
    buffer.push(4);
    assert_eq!(buffer.len(), 3);
    assert_eq!(buffer.snapshot(), vec![2, 3, 4]);
}

#[test]
fn pushing_beyond_capacity_keeps_the_last() {
    for extra in 0..7u64 {
        let capacity = 5usize;
        let mut buffer = SlidingBuffer::new(capacity, 0);
        let total = capacity as u64 + extra;
        for value in 100..100 + total {
            buffer.push(value);
        }
        let expected: Vec<u64> = (100 + extra..100 + total).collect();
        assert_eq!(buffer.snapshot(), expected);
        assert_eq!(buffer.len(), capacity);
    }
}

#[test]
fn snapshot_is_always_as_long_as_the_capacity() {
    let mut buffer = SlidingBuffer::new(4, 1);
    assert_eq!(buffer.snapshot().len(), 4);
    for value in 0..10 {
        buffer.push(value);
        assert_eq!(buffer.snapshot().len(), 4);
    }
}

#[test]
fn snapshot_leaves_the_buffer_alone() {
    let mut buffer = SlidingBuffer::new(3, 0);
    buffer.extend(&vec![5, 6]);
    let first = buffer.snapshot();
    let second = buffer.snapshot();
    assert_eq!(first, second);
    assert_eq!(buffer.len(), 2);
}

#[test]
fn extend_keeps_the_order() {
    let mut buffer = SlidingBuffer::new(5, 0);
    buffer.extend(&vec![1, 2, 3]);
    assert_eq!(buffer.snapshot(), vec![0, 0, 1, 2, 3]);
    buffer.extend(&vec![4, 5, 6, 7]);
    assert_eq!(buffer.snapshot(), vec![3, 4, 5, 6, 7]);
}

#[test]
fn extend_with_more_than_the_capacity() {
    let mut buffer = SlidingBuffer::new(3, 0);
    buffer.extend(&vec![1, 2, 3, 4, 5, 6, 7, 8]);
    assert_eq!(buffer.snapshot(), vec![6, 7, 8]);
    assert_eq!(buffer.len(), 3);
}

#[test]
fn extend_with_nothing_changes_nothing() {
    let mut buffer = SlidingBuffer::new(3, 2);
    buffer.push(1);
    buffer.extend(&Vec::new());
    assert_eq!(buffer.snapshot(), vec![2, 2, 1]);
}

#[test]
fn extend_is_repeated_push() {
    let values = vec![3u64, 1, 4, 1, 5, 9, 2, 6];
    let mut pushed = SlidingBuffer::new(5, 0);
    for value in values.iter() {
        pushed.push(*value);
    }
    let mut extended = SlidingBuffer::new(5, 0);
    extended.extend(&values);
    assert_eq!(pushed.snapshot(), extended.snapshot());
}

#[test]
fn buffer_of_one() {
    let mut buffer = SlidingBuffer::new(1, 8);
    assert_eq!(buffer.snapshot(), vec![8]);
    buffer.push(1);
    buffer.push(2);
    assert_eq!(buffer.snapshot(), vec![2]);
}

#[test]
fn capacities_that_can_be_allocated() {
    let slots = isize::MAX as usize / 8;
    assert!(can_allocate(0));
    assert!(can_allocate(1));
    assert!(can_allocate((1 << 27) + 1));
    assert!(can_allocate(slots - 1));
    assert!(!can_allocate(slots));
    assert!(!can_allocate(usize::MAX));
}

#[test]
fn buffer_longer_than_a_second_of_audio() {
    let capacity = 200_000usize;
    let mut buffer = SlidingBuffer::new(capacity, 3);
    assert_eq!(buffer.capacity(), capacity);
    buffer.push(9);
    let window = buffer.snapshot();
    assert_eq!(window.len(), capacity);
    assert_eq!(window[capacity - 2], 3);
    assert_eq!(window[capacity - 1], 9);
}
