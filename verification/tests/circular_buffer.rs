use galemind::circular_buffer::CircularBuffer;

#[test]
fn test_empty_buffer() {
    let buf: CircularBuffer<i32> = CircularBuffer::new(3);
    assert_eq!(buf.len(), 0);
    assert!(buf.is_empty());
    assert!(!buf.is_full());
}

#[test]
fn test_full_buffer() {
    let mut buf: CircularBuffer<i32> = CircularBuffer::new(3);
    buf.push(1);
    buf.push(2);
    buf.push(3);
    assert!(!buf.is_empty());
    assert!(buf.is_full());
}

#[test]
fn test_len_matches_items() {
    let mut buf = CircularBuffer::new(3);
    assert_eq!(buf.len(), buf.items().len());

    buf.push(1);
    buf.push(2);
    assert_eq!(buf.len(), buf.items().len());

    buf.push(3);
    buf.push(4); // overwrite
    assert_eq!(buf.len(), buf.items().len());
}

#[test]
fn test_push_within_capacity() {
    let mut buf = CircularBuffer::new(3);
    buf.push(1);
    buf.push(2);
    assert_eq!(buf.items(), &[1, 2]);
    assert_eq!(buf.len(), 2);
}

#[test]
fn test_push_overwrites_first_when_full() {
    let mut buf = CircularBuffer::new(3);
    buf.push(1);
    buf.push(2);
    buf.push(3);
    buf.push(4); // overwrites 1
    assert_eq!(buf.items(), &[4, 2, 3]);
}

#[test]
fn test_push_wraps_around() {
    let mut buf = CircularBuffer::new(2);
    buf.push(10);
    buf.push(20);
    buf.push(30); // overwrites 10
    buf.push(40); // overwrites 20
    assert_eq!(buf.items(), &[30, 40]);
}

#[test]
fn test_push_when_capacity_one() {
    let mut buf = CircularBuffer::new(1);
    buf.push(5);
    buf.push(6);
    assert_eq!(buf.items(), &[6]); // only the last survives
}

#[test]
fn capacity_is_kept_and_zero_capacity_buffer_is_full() {
    let buf: CircularBuffer<u8> = CircularBuffer::new(0);
    assert_eq!(buf.capacity(), 0);
    assert!(buf.is_empty());
    assert!(buf.is_full());
    let mut buf = CircularBuffer::new(4);
    for i in 0..10 {
        buf.push(i);
    }
    assert_eq!(buf.capacity(), 4);
    assert_eq!(buf.len(), 4);
}

#[test]
fn buffer_keeps_the_most_recent_items() {
    // after 7 pushes into 3 slots, the slots hold the last three pushes;
    // the next slot to write is 7 % 3 = 1, so the oldest survivor (5) sits there
    let mut buf = CircularBuffer::new(3);
    for i in 1..=7 {
        buf.push(i);
    }
    assert_eq!(buf.items(), &[7, 5, 6]);
    let mut sorted = buf.items().to_vec();
    sorted.sort();
    assert_eq!(sorted, vec![5, 6, 7]);
}

#[test]
fn buffer_holds_non_copy_items() {
    let mut buf = CircularBuffer::new(2);
    buf.push(String::from("a"));
    buf.push(String::from("b"));
    buf.push(String::from("c"));
    assert_eq!(buf.items(), &[String::from("c"), String::from("b")]);
}

#[test]
fn storage_follows_the_push_index_modulo_capacity() {
    let mut b = CircularBuffer::new(3);
    assert!(b.is_empty());
    for x in 0..3 {
        b.push(x);
        assert!(!b.is_empty());
    }
    assert!(b.is_full());
    assert_eq!(b.items(), &[0, 1, 2]);
    for x in 3..8 {
        b.push(x);
        assert!(b.is_full());
        assert_eq!(b.capacity(), 3);
    }
    // push i sits at slot i % 3 for the last three pushes (5, 6, 7)
    assert_eq!(b.items(), &[6, 7, 5]);
}
