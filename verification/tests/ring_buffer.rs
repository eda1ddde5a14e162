use gnos::ring_buffer::RingBuffer;

#[test]
fn test_ring_buffer() {
    // size 0
    let buffer: RingBuffer<f64> = RingBuffer::new(0);
    assert_eq!(buffer.len(), 0);

    // size 1
    let mut buffer: RingBuffer<f64> = RingBuffer::new(1);
    assert_eq!(buffer.len(), 0);

    buffer.push(2.0);
    assert_eq!(buffer.len(), 1);
    assert_eq!(buffer.index(0), 2.0);

    buffer.push(3.0);
    assert_eq!(buffer.len(), 1);
    assert_eq!(buffer.index(0), 3.0);

    // size 4
    let mut buffer: RingBuffer<f64> = RingBuffer::new(4);
    assert_eq!(buffer.len(), 0);

    buffer.push(1.0);
    assert_eq!(buffer.len(), 1);
    assert_eq!(buffer.index(0), 1.0);

    buffer.push(2.0);
    assert_eq!(buffer.len(), 2);
    assert_eq!(buffer.index(0), 1.0);
    assert_eq!(buffer.index(1), 2.0);

    buffer.push(3.0);
    assert_eq!(buffer.len(), 3);
    assert_eq!(buffer.index(0), 1.0);
    assert_eq!(buffer.index(1), 2.0);
    assert_eq!(buffer.index(2), 3.0);

    buffer.push(4.0);
    assert_eq!(buffer.len(), 4);
    assert_eq!(buffer.index(0), 1.0);
    assert_eq!(buffer.index(1), 2.0);
    assert_eq!(buffer.index(2), 3.0);
    assert_eq!(buffer.index(3), 4.0);

    buffer.push(5.0);
    assert_eq!(buffer.len(), 4);
    assert_eq!(buffer.index(0), 2.0);
    assert_eq!(buffer.index(1), 3.0);
    assert_eq!(buffer.index(2), 4.0);
    assert_eq!(buffer.index(3), 5.0);

    // clear
    buffer.clear();
    assert_eq!(buffer.len(), 0);

    buffer.push(2.0);
    assert_eq!(buffer.len(), 1);
    assert_eq!(buffer.index(0), 2.0);

    buffer.push(3.0);
    assert_eq!(buffer.len(), 2);
    assert_eq!(buffer.index(0), 2.0);
    assert_eq!(buffer.index(1), 3.0);
}

#[test]
fn ring_buffer_keeps_the_newest_elements() {
    let mut buffer: RingBuffer<u64> = RingBuffer::new(3);
    for x in 1..=7u64 {
        buffer.push(x);
    }
    assert_eq!(buffer.to_vec(), vec![5, 6, 7]);
    assert_eq!(buffer.capacity(), 3);
    assert!(buffer.is_not_empty());
    assert!(!buffer.is_empty());
    assert_eq!(buffer.size_hint(), Some(3));
}

#[test]
fn ring_buffer_copy_and_each() {
    let mut buffer: RingBuffer<u64> = RingBuffer::new(2);
    buffer.push(10);
    buffer.push(20);
    buffer.push(30);
    let copy = buffer.copy();
    assert_eq!(copy.to_vec(), vec![20, 30]);
    let visited = buffer.each(&|x: &u64| *x < 25);
    assert_eq!(visited, 2);
    let all = buffer.each(&|_x: &u64| true);
    assert_eq!(all, 2);
}

#[test]
fn ring_buffer_empty() {
    let buffer: RingBuffer<u64> = RingBuffer::new(5);
    assert!(buffer.is_empty());
    assert_eq!(buffer.to_vec(), Vec::<u64>::new());
    assert_eq!(buffer.size_hint(), Some(0));
}

#[test]
fn ring_buffer_as_text() {
    let mut buffer: RingBuffer<u64> = RingBuffer::new(3);
    assert_eq!(buffer.to_str(&|x: &u64| x.to_string()), "size: 0, next: 0, capacity: 3, buffer: []");
    for x in 1..=4u64 {
        buffer.push(x);
    }
    // the fourth element took the slot of the first
    assert_eq!(buffer.to_str(&|x: &u64| x.to_string()), "size: 3, next: 1, capacity: 3, buffer: [4, 2, 3]");
    assert_eq!(buffer.buffer(), 3);
}
