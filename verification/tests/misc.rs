//! Small smoke tests: the state cell, and a plain field-binding
//! destructure.

use std::sync::Arc;

use thrift_ffi::coroutines::ByteBufferChannel;
use thrift_ffi::coroutines::StateVar;
use thrift_ffi::coroutines::SyncRwBuf;
use thrift_ffi::coroutines::SynchronizedReadWriteBuffer;
use thrift_ffi::coroutines::WriteBlockingStates;

struct S {
    pub a: usize,
    pub b: String,
}

#[test]
fn it_works() {
    assert_eq!(2 + 2, 4);
}

#[test]
fn lib_it_works() {
    let mut cell = StateVar::new(WriteBlockingStates::Ready);
    cell.notify_all_of_new_state(WriteBlockingStates::Blocked);
    assert_eq!(cell.current(), WriteBlockingStates::Blocked);
    assert_eq!(2 + 2, 4);
}

#[test]
fn bind_single_field() {
    let s = S { a: 3, b: String::new() };
    let S { a, .. } = s;
    assert_eq!(a, 3);
    assert_eq!(2 + 2, 4);
}

#[test]
fn shared_buffer_wrapper_round_trips_its_value() {
    let coordinator = SynchronizedReadWriteBuffer::new(ByteBufferChannel::with_capacity(2, 2));
    let shared = Arc::new(coordinator);
    let wrapped = SyncRwBuf::new(Arc::clone(&shared));
    let back = wrapped.into_arc();
    assert!(Arc::ptr_eq(&shared, &back));
}

#[test]
fn would_block_failures_convert_to_io_errors() {
    let mut buf = SynchronizedReadWriteBuffer::new(ByteBufferChannel::with_capacity(2, 2));
    let err = buf.read_until_complete(1).unwrap_err();
    let io_err = err.into_io_error();
    assert_eq!(io_err.kind(), std::io::ErrorKind::Other);
}
