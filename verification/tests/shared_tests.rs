use ring_buffer::SharedRingBuffer;
use std::sync::Arc;

#[test]
fn shared_buffer_serves_a_single_caller() {
    let buf = SharedRingBuffer::create(4);
    assert_eq!(buf.write(b"abc"), Ok(3));
    assert_eq!(buf.read(2).unwrap(), b"ab".to_vec());
    assert_eq!(buf.write(b"defg"), Ok(3)); // 'g' does not fit
    assert_eq!(buf.read(10).unwrap(), b"cdef".to_vec());
    assert!(buf.read(1).is_none());
}

#[test]
fn shared_full_buffer_rejects_and_zero_read_yields_nothing() {
    let buf = SharedRingBuffer::create(2);
    assert_eq!(buf.write(b"xy"), Ok(2));
    assert!(buf.write(b"z").is_err());
    assert!(buf.read(0).is_none());
    assert_eq!(buf.read(2).unwrap(), b"xy".to_vec());
}

// A producer issuing 1000 single-byte writes, retrying on `NoSpaceLeft`, and a
// consumer accumulating `read(10)` results until 1000 bytes arrived. The two
// run interleaved from one thread, since each of their steps is one whole
// critical section either way; the byte totals must balance exactly.
#[test]
fn producer_and_consumer_conserve_bytes() {
    let buf = Arc::new(SharedRingBuffer::create(100));
    let producer_buf = Arc::clone(&buf);
    let mut produced: usize = 0;
    let mut collected: Vec<u8> = Vec::new();
    while collected.len() < 1000 {
        if produced < 1000 {
            let byte = [(produced % 251) as u8];
            match producer_buf.write(&byte) {
                Ok(accepted) => {
                    assert_eq!(accepted, 1);
                    produced += 1;
                }
                Err(_) => {} // full: the producer retries on a later turn
            }
        }
        if let Some(bytes) = buf.read(10) {
            collected.extend_from_slice(&bytes);
        }
    }
    assert_eq!(produced, 1000);
    assert_eq!(collected.len(), 1000);
    for (i, byte) in collected.iter().enumerate() {
        assert_eq!(*byte, (i % 251) as u8);
    }
    assert!(buf.read(1).is_none());
}
