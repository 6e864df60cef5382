//! The buffered-channel coordinator: byte-exact round trips, the flush
//! rendezvous, and the hand-off when the write side fills.

use thrift_ffi::coroutines::ByteBufferChannel;
use thrift_ffi::coroutines::SynchronizedReadWriteBuffer;

fn coordinator(
    read_capacity: usize,
    write_capacity: usize,
) -> SynchronizedReadWriteBuffer<ByteBufferChannel> {
    SynchronizedReadWriteBuffer::new(ByteBufferChannel::with_capacity(
        read_capacity,
        write_capacity,
    ))
}

#[test]
fn round_trip_returns_exactly_what_was_written() {
    let mut buf = coordinator(8, 8);
    let message = b"abcdefgh";
    buf.write_until_complete(message).unwrap();
    let out = buf.read_until_complete(message.len()).unwrap();
    assert_eq!(out.as_slice(), message);
}

#[test]
fn capacity_four_write_then_staggered_reads() {
    // capacity of four bytes on both sides: the four-byte write converges
    // immediately; the two-byte write converges through the hand-off; the
    // full six-byte sequence comes back across the two reads it takes
    let mut buf = coordinator(4, 4);
    buf.write_until_complete(b"abcd").unwrap();
    buf.write_until_complete(b"ef").unwrap();
    let first = buf.read_until_complete(4).unwrap();
    assert_eq!(first.as_slice(), b"abcd");
    let second = buf.read_until_complete(2).unwrap();
    assert_eq!(second.as_slice(), b"ef");
}

#[test]
fn overfull_write_blocks_until_a_read_drains() {
    let mut buf = coordinator(4, 4);
    buf.write_until_complete(b"abcd").unwrap();
    buf.write_until_complete(b"wxyz").unwrap();
    // both sides are full now: a further write would wait forever
    assert!(buf.write_until_complete(b"ef").is_err());
    // draining four bytes frees the hand-off and the write converges
    let first = buf.read_until_complete(4).unwrap();
    assert_eq!(first.as_slice(), b"abcd");
    buf.write_until_complete(b"ef").unwrap();
    let second = buf.read_until_complete(4).unwrap();
    assert_eq!(second.as_slice(), b"wxyz");
    let third = buf.read_until_complete(2).unwrap();
    assert_eq!(third.as_slice(), b"ef");
}

#[test]
fn flush_reports_the_rendezvous_only_when_drained() {
    let mut buf = coordinator(8, 8);
    assert!(buf.flush().is_ok());
    buf.write_until_complete(b"abc").unwrap();
    assert!(buf.flush().is_err());
    let out = buf.read_until_complete(2).unwrap();
    assert_eq!(out.as_slice(), b"ab");
    assert!(buf.flush().is_err());
    let rest = buf.read_until_complete(1).unwrap();
    assert_eq!(rest.as_slice(), b"c");
    assert!(buf.flush().is_ok());
}

#[test]
fn read_beyond_the_stream_would_block() {
    let mut buf = coordinator(4, 4);
    buf.write_until_complete(b"ab").unwrap();
    assert!(buf.read_until_complete(3).is_err());
    // nothing was left behind for a later read
    assert!(buf.flush().is_ok());
}

#[test]
fn empty_read_and_write_are_no_ops() {
    let mut buf = coordinator(4, 4);
    buf.write_until_complete(b"").unwrap();
    let out = buf.read_until_complete(0).unwrap();
    assert_eq!(out.len(), 0);
    buf.write_until_complete(b"hi").unwrap();
    let out = buf.read_until_complete(2).unwrap();
    assert_eq!(out.as_slice(), b"hi");
}
