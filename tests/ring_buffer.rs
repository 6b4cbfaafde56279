use wflos_boot::ring_buffer::RingBuffer;

#[test]
fn test_new_buffer_is_empty() {
    let buffer: RingBuffer<u8, 8> = RingBuffer::new();
    assert!(buffer.is_empty());
    assert!(!buffer.is_full());
    assert_eq!(buffer.len(), 0);
}

#[test]
fn test_push_and_pop() {
    let mut buffer: RingBuffer<u8, 8> = RingBuffer::new();

    assert!(buffer.push(1));
    assert!(!buffer.is_empty());
    assert_eq!(buffer.len(), 1);

    assert_eq!(buffer.pop(), Some(1));
    assert!(buffer.is_empty());
    assert_eq!(buffer.len(), 0);
}

#[test]
fn test_multiple_push_pop() {
    let mut buffer: RingBuffer<u8, 8> = RingBuffer::new();

    assert!(buffer.push(1));
    assert!(buffer.push(2));
    assert!(buffer.push(3));
    assert_eq!(buffer.len(), 3);

    assert_eq!(buffer.pop(), Some(1));
    assert_eq!(buffer.pop(), Some(2));
    assert_eq!(buffer.pop(), Some(3));
    assert!(buffer.is_empty());
}

#[test]
fn test_buffer_full() {
    let mut buffer: RingBuffer<u8, 4> = RingBuffer::new();

    assert!(buffer.push(1));
    assert!(buffer.push(2));
    assert!(buffer.push(3));
    assert!(buffer.is_full());

    // Buffer full, push should fail
    assert!(!buffer.push(4));
    assert_eq!(buffer.len(), 3);
}

#[test]
fn test_wrap_around() {
    let mut buffer: RingBuffer<u8, 4> = RingBuffer::new();

    // Fill buffer
    assert!(buffer.push(1));
    assert!(buffer.push(2));
    assert!(buffer.push(3));
    assert!(buffer.is_full());

    // Remove items
    assert_eq!(buffer.pop(), Some(1));
    assert_eq!(buffer.pop(), Some(2));

    // Add more (wraps around)
    assert!(buffer.push(4));
    assert!(buffer.push(5));

    // Check order is correct
    assert_eq!(buffer.pop(), Some(3));
    assert_eq!(buffer.pop(), Some(4));
    assert_eq!(buffer.pop(), Some(5));
    assert!(buffer.is_empty());
}

#[test]
fn test_pop_empty() {
    let mut buffer: RingBuffer<u8, 8> = RingBuffer::new();
    assert_eq!(buffer.pop(), None);
}

#[test]
fn test_clear() {
    let mut buffer: RingBuffer<u8, 8> = RingBuffer::new();

    buffer.push(1);
    buffer.push(2);
    buffer.push(3);
    assert_eq!(buffer.len(), 3);

    buffer.clear();
    assert!(buffer.is_empty());
    assert_eq!(buffer.len(), 0);
}

#[test]
fn test_fifo_order() {
    let mut buffer: RingBuffer<char, 16> = RingBuffer::new();

    let test_data = ['H', 'E', 'L', 'L', 'O'];
    for &ch in &test_data {
        assert!(buffer.push(ch));
    }

    for &expected in &test_data {
        assert_eq!(buffer.pop(), Some(expected));
    }

    assert!(buffer.is_empty());
}

#[test]
fn single_slot_buffer_holds_nothing() {
    let mut buffer: RingBuffer<u8, 1> = RingBuffer::new();
    assert!(buffer.is_empty());
    assert!(buffer.is_full());
    assert!(!buffer.push(7));
    assert_eq!(buffer.pop(), None);
}

#[test]
fn clear_then_reuse_keeps_fifo_order() {
    let mut buffer: RingBuffer<u8, 4> = RingBuffer::new();
    assert!(buffer.push(1));
    assert!(buffer.push(2));
    assert_eq!(buffer.pop(), Some(1));
    buffer.clear();
    assert!(buffer.push(9));
    assert!(buffer.push(8));
    assert!(buffer.push(7));
    assert!(buffer.is_full());
    assert_eq!(buffer.len(), 3);
    assert_eq!(buffer.pop(), Some(9));
    assert_eq!(buffer.pop(), Some(8));
    assert_eq!(buffer.pop(), Some(7));
    assert_eq!(buffer.pop(), None);
}

#[test]
fn many_wraps_keep_length_exact() {
    let mut buffer: RingBuffer<u32, 5> = RingBuffer::new();
    for i in 0..100u32 {
        assert!(buffer.push(i));
        assert!(buffer.push(i + 1000));
        assert_eq!(buffer.len(), 2);
        assert_eq!(buffer.pop(), Some(i));
        assert_eq!(buffer.pop(), Some(i + 1000));
        assert!(buffer.is_empty());
    }
}
