use psk_broker::SecureBuffer;

#[test]
fn new_buffer_is_zeroed() {
    let b = SecureBuffer::new(8);
    assert_eq!(b.capacity(), 8);
    assert_eq!(b.slice(0, 8), &[0u8; 8]);
}

#[test]
fn copy_in_and_erase() {
    let mut b = SecureBuffer::new(6);
    b.copy_in(2, &[1, 2, 3]);
    b.set(0, 9);
    assert_eq!(b.slice(0, 6), &[9, 0, 1, 2, 3, 0]);
    assert_eq!(b.get(3), 2);
    b.erase();
    assert_eq!(b.capacity(), 6);
    assert_eq!(b.slice(0, 6), &[0u8; 6]);
}
