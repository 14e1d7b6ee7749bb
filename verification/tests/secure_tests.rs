use content_licensing::cipher::generate_key;
use content_licensing::secure::SecureBuffer;

#[test]
fn buffer_returns_held_bytes() {
    let key = generate_key();
    let buffer = SecureBuffer::new(key.clone());
    assert_eq!(buffer.len(), 32);
    assert_eq!(buffer.get_data(), key);
}

#[test]
fn wipe_empties_the_buffer() {
    let mut buffer = SecureBuffer::new(b"very secret key bytes".to_vec());
    buffer.wipe();
    assert_eq!(buffer.len(), 0);
    assert_eq!(buffer.get_data(), Vec::<u8>::new());
}

#[test]
fn wiped_buffer_holds_nothing_on_every_path() {
    let mut buffer = SecureBuffer::new(vec![0xAA; 64]);
    assert_eq!(buffer.len(), 64);
    buffer.wipe();
    buffer.wipe();
    assert_eq!(buffer.len(), 0);
}
