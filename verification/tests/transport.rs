//! The monocast transport over the outside in-memory channel: a write, the
//! hand-off, and a read returning exactly the bytes written.

use thrift_ffi::transport::ClientRequest;
use thrift_ffi::transport::MonocastClient;
use thrift_ffi::transport::ThriftChunk;
use thrift_ffi::transport::TransportSpace;

#[test]
fn write_then_read() -> Result<(), String> {
    let message: &[u8] = "hello! this is a test!".as_bytes();
    let mut space = TransportSpace::new();
    let handle = space
        .create_client(ClientRequest::Monocast(MonocastClient {
            read_capacity: message.len() as u64,
            write_capacity: message.len() as u64,
        }))
        .map_err(|e| e.message())?;

    let chunk = ThriftChunk { bytes: message.to_vec(), capacity: message.len() as u64 };

    let written = space.write_buffer(&handle, &chunk).map_err(|e| e.message())?;
    assert_eq!(written, message.len());

    // copy the written bytes over so the exact same bytes come back out
    space.copy_write_buffer_to_read_buffer(&handle).map_err(|e| e.message())?;

    let blank = ThriftChunk { bytes: vec![0u8; message.len()], capacity: message.len() as u64 };
    let filled = space.read_buffer(&handle, &blank).map_err(|e| e.message())?;
    assert_eq!(filled.bytes.len(), written);
    assert_eq!(filled.bytes.as_slice(), message);
    Ok(())
}

#[test]
fn write_stops_at_the_channel_capacity() {
    let mut space = TransportSpace::new();
    let handle = space
        .create_client(ClientRequest::Monocast(MonocastClient {
            read_capacity: 4,
            write_capacity: 4,
        }))
        .unwrap();
    let chunk = ThriftChunk { bytes: b"abcdef".to_vec(), capacity: 6 };
    let written = space.write_buffer(&handle, &chunk).unwrap();
    assert_eq!(written, 4);
    space.copy_write_buffer_to_read_buffer(&handle).unwrap();
    let blank = ThriftChunk { bytes: vec![0u8; 6], capacity: 6 };
    let filled = space.read_buffer(&handle, &blank).unwrap();
    assert_eq!(filled.bytes.as_slice(), b"abcd");
}

#[test]
fn dangling_transport_handle_fails() {
    let mut space = TransportSpace::new();
    let handle = space
        .create_client(ClientRequest::Monocast(MonocastClient {
            read_capacity: 2,
            write_capacity: 2,
        }))
        .unwrap();
    let chunk = ThriftChunk { bytes: b"xy".to_vec(), capacity: 2 };
    assert!(space.write_buffer(&handle, &chunk).is_ok());
    let mut other = TransportSpace::new();
    // a handle resolved against the wrong registry space dangles
    assert!(other.write_buffer(&handle, &chunk).is_err());
}
