//! The state-coordination primitive and the buffered-channel coordinator: a
//! bounded bidirectional byte buffer, two blocking-state cells, and the
//! convergence protocol that drives complete transfers across repeated
//! hand-offs between the write side and the read side.
//!
//! Between threads, this protocol parks a waiter on a condition variable
//! until a peer moves the shared state. In this verified, single-process
//! rendering the waiters and the notifier share one call stack, so a wait
//! that no further in-call hand-off could ever end is reported as a
//! would-block error instead of parking forever; everything the protocol
//! does before that point is performed and proved exactly.

use vstd::prelude::*;

verus! {

/// The standard I/O error type, opaque to this crate; only built, never
/// inspected, when a failure is handed to callers that speak `std::io`.
#[verifier::external_type_specification]
#[verifier::external_body]
pub struct ExIoError(std::io::Error);

/// Why a coordinator operation could not converge. The contracts below say
/// exactly when each failure occurs; the message is presentation only.
#[derive(Debug, Clone, PartialEq, Eq)]
pub struct CoroutineError(String);

impl CoroutineError {
    /// A human-readable description of the failure.
    pub fn message(&self) -> String {
        self.0.clone()
    }

    /// The failure every contract here pins down: the operation would have
    /// to wait for a hand-off that no call on this stack can perform.
    pub(crate) fn would_block() -> (e: CoroutineError) {
        CoroutineError(
            String::from_str("the transfer cannot make progress without a peer hand-off"),
        )
    }

    /// Relies on `std::io::Error::new`: wraps this failure's message into an
    /// I/O error value for callers that speak `std::io`.
    #[verifier::external_body]
    pub fn into_io_error(self) -> std::io::Error {
        std::io::Error::new(std::io::ErrorKind::Other, self.0)
    }
}

/// The read side of a coordinator: whether bytes are available, needed, or a
/// requested read has just been fully served.
#[derive(Debug, Clone, Copy, PartialEq, Eq, Hash, Structural)]
pub enum ReadBlockingStates {
    /// The read buffer holds bytes.
    HasData,
    /// The read buffer is drained; a hand-off must refill it.
    NeedsData,
    /// The last read request was served completely.
    WasJustCompleted,
}

/// The write side of a coordinator: whether it can accept bytes, is waiting
/// for the reader to drain, or has fully written a requested slice.
#[derive(Debug, Clone, Copy, PartialEq, Eq, Hash, Structural)]
pub enum WriteBlockingStates {
    /// The write buffer can accept bytes.
    Ready,
    /// The write buffer is full and the read side has not drained.
    Blocked,
    /// The last write request was written completely.
    FinishedWrite,
}

/// The current-value half of the protocol's lock+condition-variable cell.
/// All reads and writes of the value happen under exclusive access; in
/// this single-threaded rendering exclusive access is the `&mut` borrow,
/// and the waiters it would wake are the convergence loops below
/// re-checking the value.
pub struct StateVar<S> {
    value: S,
}

impl<S: Copy> StateVar<S> {
    /// The value the cell currently holds.
    pub closed spec fn spec_current(self) -> S {
        self.value
    }

    /// A cell holding `value`.
    pub fn new(value: S) -> (v: StateVar<S>)
        ensures
            v.spec_current() == value,
    {
        StateVar { value }
    }

    /// Read the current value.
    pub fn current(&self) -> (s: S)
        ensures
            s == self.spec_current(),
    {
        self.value
    }

    /// Store the next value and wake every waiter. The transition has been
    /// computed by the caller under the same exclusive access.
    pub fn notify_all_of_new_state(&mut self, next: S)
        ensures
            final(self).spec_current() == next,
    {
        self.value = next;
    }
}

/// Abstract description of a bidirectional in-memory buffered byte channel:
/// the capability the coordinator requires of the underlying buffer object.
pub trait ReadWriteBufferable: Sized {
    /// The bytes waiting to be read, front first.
    spec fn read_side(&self) -> Seq<u8>;

    /// The bytes written but not yet handed to the read side.
    spec fn write_side(&self) -> Seq<u8>;

    /// How many bytes the read buffer can hold.
    spec fn read_capacity(&self) -> nat;

    /// How many bytes the write buffer can hold.
    spec fn write_capacity(&self) -> nat;

    /// The buffer's own well-formedness.
    spec fn inv(&self) -> bool;

    /// A well-formed buffer keeps both sides within their capacities.
    proof fn lemma_inv(&self)
        requires
            self.inv(),
        ensures
            self.read_side().len() <= self.read_capacity(),
            self.write_side().len() <= self.write_capacity(),
    ;

    /// Whether any bytes wait on the read side.
    fn read_has_any(&self) -> (b: bool)
        requires
            self.inv(),
        ensures
            b == (self.read_side().len() > 0),
    ;

    /// Whether the write side is at capacity.
    fn write_is_full(&self) -> (b: bool)
        requires
            self.inv(),
        ensures
            b == (self.write_side().len() == self.write_capacity()),
    ;

    /// Whether any bytes wait on the write side.
    fn write_has_any(&self) -> (b: bool)
        requires
            self.inv(),
        ensures
            b == (self.write_side().len() > 0),
    ;

    /// Whether handing the write side over would not fit the read buffer,
    /// in which case the copy below must not be attempted.
    fn copy_would_truncate(&self) -> (b: bool)
        requires
            self.inv(),
        ensures
            b == (self.write_side().len() > self.read_capacity()),
    ;

    /// The hand-off: move everything on the write side into the read
    /// buffer, overwriting it. The caller only does this when the read side
    /// is drained and the bytes fit.
    fn copy_write_buffer_to_read_buffer(&mut self)
        requires
            old(self).inv(),
            old(self).write_side().len() <= old(self).read_capacity(),
        ensures
            final(self).inv(),
            final(self).read_side() == old(self).write_side(),
            final(self).write_side() == Seq::<u8>::empty(),
            final(self).read_capacity() == old(self).read_capacity(),
            final(self).write_capacity() == old(self).write_capacity(),
    ;

    /// Append as many bytes of `bytes[start..]` as fit; a write makes
    /// positive progress whenever the buffer is not full.
    fn write_some(&mut self, bytes: &[u8], start: usize) -> (n: usize)
        requires
            old(self).inv(),
            start <= bytes@.len(),
        ensures
            final(self).inv(),
            n == vstd::math::min(
                bytes@.len() - start,
                old(self).write_capacity() - old(self).write_side().len(),
            ),
            final(self).write_side() == old(self).write_side() + bytes@.subrange(
                start as int,
                start + n,
            ),
            final(self).read_side() == old(self).read_side(),
            final(self).read_capacity() == old(self).read_capacity(),
            final(self).write_capacity() == old(self).write_capacity(),
    ;

    /// Take up to `want` bytes off the front of the read side.
    fn read_some(&mut self, want: usize) -> (out: Vec<u8>)
        requires
            old(self).inv(),
        ensures
            final(self).inv(),
            out@.len() == vstd::math::min(want as int, old(self).read_side().len() as int),
            out@ == old(self).read_side().take(out@.len() as int),
            final(self).read_side() == old(self).read_side().skip(out@.len() as int),
            final(self).write_side() == old(self).write_side(),
            final(self).read_capacity() == old(self).read_capacity(),
            final(self).write_capacity() == old(self).write_capacity(),
    ;
}

/// The crate's own bounded bidirectional byte channel: a fixed-capacity
/// write buffer and a fixed-capacity read buffer, with the hand-off moving
/// the whole write buffer into the read buffer.
pub struct ByteBufferChannel {
    read_buf: Vec<u8>,
    read_cap: usize,
    write_buf: Vec<u8>,
    write_cap: usize,
}

impl ByteBufferChannel {
    /// An empty channel with the given read and write capacities.
    pub fn with_capacity(read_capacity: usize, write_capacity: usize) -> (c: ByteBufferChannel)
        ensures
            c.inv(),
            c.read_side() == Seq::<u8>::empty(),
            c.write_side() == Seq::<u8>::empty(),
            c.read_capacity() == read_capacity,
            c.write_capacity() == write_capacity,
    {
        ByteBufferChannel {
            read_buf: Vec::new(),
            read_cap: read_capacity,
            write_buf: Vec::new(),
            write_cap: write_capacity,
        }
    }
}

impl ReadWriteBufferable for ByteBufferChannel {
    closed spec fn read_side(&self) -> Seq<u8> {
        self.read_buf@
    }

    closed spec fn write_side(&self) -> Seq<u8> {
        self.write_buf@
    }

    closed spec fn read_capacity(&self) -> nat {
        self.read_cap as nat
    }

    closed spec fn write_capacity(&self) -> nat {
        self.write_cap as nat
    }

    closed spec fn inv(&self) -> bool {
        self.read_buf@.len() <= self.read_cap && self.write_buf@.len() <= self.write_cap
    }

    proof fn lemma_inv(&self) {
    }

    fn read_has_any(&self) -> (b: bool) {
        self.read_buf.len() > 0
    }

    fn write_is_full(&self) -> (b: bool) {
        self.write_buf.len() == self.write_cap
    }

    fn write_has_any(&self) -> (b: bool) {
        self.write_buf.len() > 0
    }

    fn copy_would_truncate(&self) -> (b: bool) {
        self.write_buf.len() > self.read_cap
    }

    fn copy_write_buffer_to_read_buffer(&mut self) {
        self.read_buf.clear();
        self.read_buf.append(&mut self.write_buf);
    }

    fn write_some(&mut self, bytes: &[u8], start: usize) -> (n: usize) {
        let room = self.write_cap - self.write_buf.len();
        let rest = bytes.len() - start;
        let n = if rest < room {
            rest
        } else {
            room
        };
        let mut j: usize = 0;
        while j < n
            invariant
                n <= bytes@.len() - start,
                start + n <= usize::MAX,
                0 <= j <= n,
                self.write_buf@.len() + (n - j) <= self.write_cap,
                self.read_buf@ == old(self).read_buf@,
                self.read_cap == old(self).read_cap,
                self.write_cap == old(self).write_cap,
                self.write_buf@ == old(self).write_buf@ + bytes@.subrange(
                    start as int,
                    start + j,
                ),
            decreases n - j,
        {
            self.write_buf.push(bytes[start + j]);
            proof {
                assert(self.write_buf@ =~= old(self).write_buf@ + bytes@.subrange(
                    start as int,
                    start + j + 1,
                ));
            }
            j = j + 1;
        }
        n
    }

    fn read_some(&mut self, want: usize) -> (out: Vec<u8>) {
        let k = if want < self.read_buf.len() {
            want
        } else {
            self.read_buf.len()
        };
        let mut out: Vec<u8> = Vec::new();
        let mut j: usize = 0;
        while j < k
            invariant
                *self == *old(self),
                k <= self.read_buf@.len(),
                0 <= j <= k,
                out@ == self.read_buf@.take(j as int),
            decreases k - j,
        {
            out.push(self.read_buf[j]);
            proof {
                assert(out@ =~= self.read_buf@.take(j + 1));
            }
            j = j + 1;
        }
        let mut rest: Vec<u8> = Vec::new();
        let mut j: usize = k;
        while j < self.read_buf.len()
            invariant
                *self == *old(self),
                k <= j <= self.read_buf@.len(),
                rest@ == self.read_buf@.subrange(k as int, j as int),
            decreases self.read_buf@.len() - j,
        {
            rest.push(self.read_buf[j]);
            proof {
                assert(rest@ =~= self.read_buf@.subrange(k as int, j + 1));
            }
            j = j + 1;
        }
        proof {
            assert(rest@ =~= old(self).read_buf@.skip(k as int));
        }
        self.read_buf = rest;
        out
    }
}

// ---------------------------------------------------------------------------
// The functional model of one coordinator call. The coordinator's contracts
// are stated through these spec functions, and the laws at the bottom of the
// file are proved about them alone.
// ---------------------------------------------------------------------------
/// Whether a complete write of `len` bytes converges without a peer: it fits
/// the free write buffer, or the read side is drained so that one hand-off
/// frees the whole write buffer for the remainder.
pub open spec fn write_converges(
    read: Seq<u8>,
    write: Seq<u8>,
    rcap: int,
    wcap: int,
    len: int,
) -> bool {
    if len == 0 {
        write.len() < wcap || (read.len() == 0 && wcap <= rcap && 0 < wcap)
    } else {
        len <= wcap - write.len() + if read.len() == 0 && wcap <= rcap {
            wcap
        } else {
            0
        }
    }
}

/// Whether a write of `len` bytes performs the hand-off: the bytes overflow
/// the free write buffer, the read side is drained, and a full write buffer
/// fits the read buffer.
pub open spec fn write_migrates(
    read: Seq<u8>,
    write: Seq<u8>,
    rcap: int,
    wcap: int,
    len: int,
) -> bool {
    len > wcap - write.len() && read.len() == 0 && wcap <= rcap
}

/// The read side after a converging write of `bytes` (non-empty).
pub open spec fn write_final_read(
    read: Seq<u8>,
    write: Seq<u8>,
    rcap: int,
    wcap: int,
    bytes: Seq<u8>,
) -> Seq<u8> {
    if write_migrates(read, write, rcap, wcap, bytes.len() as int) {
        write + bytes.take(wcap - write.len())
    } else {
        read
    }
}

/// The write side after a converging write of `bytes` (non-empty).
pub open spec fn write_final_write(
    read: Seq<u8>,
    write: Seq<u8>,
    rcap: int,
    wcap: int,
    bytes: Seq<u8>,
) -> Seq<u8> {
    if write_migrates(read, write, rcap, wcap, bytes.len() as int) {
        bytes.skip(wcap - write.len())
    } else {
        write + bytes
    }
}

/// The read side after a blocked write of `bytes` (non-empty): as much was
/// written as could be, and the rest would wait for a peer.
pub open spec fn write_blocked_read(
    read: Seq<u8>,
    write: Seq<u8>,
    rcap: int,
    wcap: int,
    bytes: Seq<u8>,
) -> Seq<u8> {
    if write_migrates(read, write, rcap, wcap, bytes.len() as int) {
        write + bytes.take(wcap - write.len())
    } else {
        read
    }
}

/// The write side after a blocked write of `bytes` (non-empty).
pub open spec fn write_blocked_write(
    read: Seq<u8>,
    write: Seq<u8>,
    rcap: int,
    wcap: int,
    bytes: Seq<u8>,
) -> Seq<u8> {
    if write_migrates(read, write, rcap, wcap, bytes.len() as int) {
        bytes.subrange(wcap - write.len(), wcap - write.len() + wcap)
    } else {
        write + bytes.take(wcap - write.len())
    }
}

/// How many bytes one read call can obtain without a peer: the read side,
/// plus the write side if one hand-off can move it over.
pub open spec fn read_avail(read: Seq<u8>, write: Seq<u8>, rcap: int) -> int {
    read.len() + if write.len() <= rcap {
        write.len() as int
    } else {
        0
    }
}

/// Whether a complete read of `want` bytes converges without a peer.
pub open spec fn read_converges(read: Seq<u8>, write: Seq<u8>, rcap: int, want: int) -> bool {
    want <= read_avail(read, write, rcap)
}

/// The read side after a converging read of `want` bytes (non-empty).
pub open spec fn read_final_read(read: Seq<u8>, write: Seq<u8>, want: int) -> Seq<u8> {
    if want > read.len() {
        (read + write).skip(want)
    } else {
        read.skip(want)
    }
}

/// The write side after a converging read of `want` bytes (non-empty).
pub open spec fn read_final_write(read: Seq<u8>, write: Seq<u8>, want: int) -> Seq<u8> {
    if want > read.len() {
        Seq::<u8>::empty()
    } else {
        write
    }
}

/// Whether `flush` reports the rendezvous: nothing is left to push on the
/// write side and nothing is left to drain on the read side.
pub open spec fn flush_ok(read: Seq<u8>, write: Seq<u8>) -> bool {
    read.len() == 0 && write.len() == 0
}

/// A struct wrapping access to a bidirectional buffered byte object,
/// synchronizing one writer and one reader through the two blocking-state
/// cells: the buffered-channel coordinator.
///
/// `write_until_complete` and `read_until_complete` are the convergence
/// loops of the protocol, driven to the `FinishedWrite` and
/// `WasJustCompleted` triggers. Without a peer thread the write side can
/// hand off to the read side at most once per call before every further
/// slot execution would report `Blocked` or `NeedsData` again, so the loops
/// are written out to that depth, and the point where a threaded run would
/// park on the condition variable returns a would-block error instead.
pub struct SynchronizedReadWriteBuffer<IoObject: ReadWriteBufferable> {
    io_object: IoObject,
    read: StateVar<ReadBlockingStates>,
    write: StateVar<WriteBlockingStates>,
}

impl<IoObject: ReadWriteBufferable> SynchronizedReadWriteBuffer<IoObject> {
    /// The bytes waiting on the read side of the underlying buffer.
    pub closed spec fn read_side(&self) -> Seq<u8> {
        self.io_object.read_side()
    }

    /// The bytes waiting on the write side of the underlying buffer.
    pub closed spec fn write_side(&self) -> Seq<u8> {
        self.io_object.write_side()
    }

    /// The read buffer's capacity.
    pub closed spec fn read_capacity(&self) -> nat {
        self.io_object.read_capacity()
    }

    /// The write buffer's capacity.
    pub closed spec fn write_capacity(&self) -> nat {
        self.io_object.write_capacity()
    }

    /// Everything in flight, oldest first: what reads will return next.
    pub open spec fn stream(&self) -> Seq<u8> {
        self.read_side() + self.write_side()
    }

    /// The coordinator is well-formed when its buffer is.
    pub closed spec fn inv(&self) -> bool {
        self.io_object.inv()
    }

    /// The current read-side blocking state.
    pub closed spec fn read_state(&self) -> ReadBlockingStates {
        self.read.spec_current()
    }

    /// The current write-side blocking state.
    pub closed spec fn write_state(&self) -> WriteBlockingStates {
        self.write.spec_current()
    }

    /// Wrap `io_object`: the read side starts drained, the write side ready.
    pub fn new(io_object: IoObject) -> (s: SynchronizedReadWriteBuffer<IoObject>)
        requires
            io_object.inv(),
        ensures
            s.inv(),
            s.read_side() == io_object.read_side(),
            s.write_side() == io_object.write_side(),
            s.read_capacity() == io_object.read_capacity(),
            s.write_capacity() == io_object.write_capacity(),
            s.read_state() == ReadBlockingStates::NeedsData,
            s.write_state() == WriteBlockingStates::Ready,
    {
        SynchronizedReadWriteBuffer {
            io_object,
            read: StateVar::new(ReadBlockingStates::NeedsData),
            write: StateVar::new(WriteBlockingStates::Ready),
        }
    }

    /// One hand-off attempt: when the read side is drained and the write
    /// side fits the read buffer, move it over and set the read state
    /// accordingly. Declined (leaving everything unchanged) otherwise; the
    /// underlying buffer refuses a truncating copy.
    fn attempt_hand_off(&mut self) -> (migrated: bool)
        requires
            old(self).inv(),
        ensures
            final(self).inv(),
            final(self).read_capacity() == old(self).read_capacity(),
            final(self).write_capacity() == old(self).write_capacity(),
            final(self).write_state() == old(self).write_state(),
            migrated == (old(self).read_side().len() == 0 && old(self).write_side().len()
                <= old(self).read_capacity()),
            migrated ==> {
                &&& final(self).read_side() == old(self).write_side()
                &&& final(self).write_side() == Seq::<u8>::empty()
                &&& final(self).read_state() == (if old(self).write_side().len() > 0 {
                    ReadBlockingStates::HasData
                } else {
                    ReadBlockingStates::NeedsData
                })
            },
            !migrated ==> {
                &&& final(self).read_side() == old(self).read_side()
                &&& final(self).write_side() == old(self).write_side()
                &&& final(self).read_state() == old(self).read_state()
            },
    {
        if self.io_object.read_has_any() {
            return false;
        }
        if self.io_object.copy_would_truncate() {
            return false;
        }
        self.io_object.copy_write_buffer_to_read_buffer();
        if self.io_object.read_has_any() {
            self.read.notify_all_of_new_state(ReadBlockingStates::HasData);
        } else {
            self.read.notify_all_of_new_state(ReadBlockingStates::NeedsData);
        }
        true
    }

    /// Corresponds to `write`: the convergence loop with trigger
    /// `FinishedWrite`. Writes the entire slice, handing the write buffer
    /// over to the drained read side when it fills; converges exactly when
    /// [`write_converges`] says so of the state it started from, and
    /// otherwise reports that the remainder would wait forever for a peer.
    ///
    /// An empty slice is the no-op completion that the flush rendezvous
    /// drives; it reports `Ready` without writing.
    pub fn write_until_complete(&mut self, bytes: &[u8]) -> (r: Result<(), CoroutineError>)
        requires
            old(self).inv(),
        ensures
            final(self).inv(),
            final(self).read_capacity() == old(self).read_capacity(),
            final(self).write_capacity() == old(self).write_capacity(),
            r.is_ok() <==> write_converges(
                old(self).read_side(),
                old(self).write_side(),
                old(self).read_capacity() as int,
                old(self).write_capacity() as int,
                bytes@.len() as int,
            ),
            r.is_ok() && bytes@.len() > 0 ==> {
                &&& final(self).read_side() == write_final_read(
                    old(self).read_side(),
                    old(self).write_side(),
                    old(self).read_capacity() as int,
                    old(self).write_capacity() as int,
                    bytes@,
                )
                &&& final(self).write_side() == write_final_write(
                    old(self).read_side(),
                    old(self).write_side(),
                    old(self).read_capacity() as int,
                    old(self).write_capacity() as int,
                    bytes@,
                )
                &&& final(self).stream() == old(self).stream() + bytes@
                &&& final(self).write_state() == WriteBlockingStates::FinishedWrite
            },
            r.is_ok() && bytes@.len() == 0 ==> final(self).write_state()
                == WriteBlockingStates::Ready && final(self).stream() == old(self).stream(),
            r.is_ok() && bytes@.len() == 0 && old(self).write_side().len() == old(
                self,
            ).write_capacity() && old(self).write_capacity() > 0 ==> {
                &&& final(self).read_side() == old(self).write_side()
                &&& final(self).write_side() == Seq::<u8>::empty()
                &&& final(self).read_state() == ReadBlockingStates::HasData
            },
            r.is_ok() && bytes@.len() == 0 && !(old(self).write_side().len() == old(
                self,
            ).write_capacity() && old(self).write_capacity() > 0) ==> {
                &&& final(self).read_side() == old(self).read_side()
                &&& final(self).write_side() == old(self).write_side()
                &&& final(self).read_state() == old(self).read_state()
            },
            r.is_err() ==> {
                &&& bytes@.len() > 0 ==> final(self).read_side() == write_blocked_read(
                    old(self).read_side(),
                    old(self).write_side(),
                    old(self).read_capacity() as int,
                    old(self).write_capacity() as int,
                    bytes@,
                ) && final(self).write_side() == write_blocked_write(
                    old(self).read_side(),
                    old(self).write_side(),
                    old(self).read_capacity() as int,
                    old(self).write_capacity() as int,
                    bytes@,
                )
                &&& bytes@.len() == 0 ==> final(self).stream() == old(self).stream()
                &&& final(self).write_state() == WriteBlockingStates::Blocked
            },
    {
        proof {
            self.io_object.lemma_inv();
        }
        if self.io_object.write_is_full() {
            self.attempt_hand_off();
            if self.io_object.write_is_full() {
                self.write.notify_all_of_new_state(WriteBlockingStates::Blocked);
                return Err(CoroutineError::would_block());
            }
        }
        if bytes.len() == 0 {
            self.write.notify_all_of_new_state(WriteBlockingStates::Ready);
            return Ok(());
        }
        let n1 = self.io_object.write_some(bytes, 0);
        if n1 == bytes.len() {
            proof {
                assert(bytes@.subrange(0, n1 as int) =~= bytes@);
            }
            self.write.notify_all_of_new_state(WriteBlockingStates::FinishedWrite);
            return Ok(());
        }
        // the write buffer is now full: one more hand-off attempt serves the rest
        self.attempt_hand_off();
        if self.io_object.write_is_full() {
            self.write.notify_all_of_new_state(WriteBlockingStates::Blocked);
            return Err(CoroutineError::would_block());
        }
        let n2 = self.io_object.write_some(bytes, n1);
        if n1 + n2 == bytes.len() {
            proof {
                assert(self.io_object.write_side() =~= bytes@.skip(n1 as int));
            }
            self.write.notify_all_of_new_state(WriteBlockingStates::FinishedWrite);
            return Ok(());
        }
        proof {
            assert(self.io_object.write_side() =~= bytes@.subrange(
                n1 as int,
                n1 + n2,
            ));
        }
        self.write.notify_all_of_new_state(WriteBlockingStates::Blocked);
        Err(CoroutineError::would_block())
    }

    /// Corresponds to `read`: the convergence loop with trigger
    /// `WasJustCompleted`. Before waiting it opportunistically migrates
    /// pending write-side bytes into the drained read side, then serves the
    /// request completely; converges exactly when [`read_converges`] says
    /// so, and otherwise reports that the remainder would wait forever for
    /// a peer.
    pub fn read_until_complete(&mut self, want: usize) -> (r: Result<Vec<u8>, CoroutineError>)
        requires
            old(self).inv(),
        ensures
            final(self).inv(),
            final(self).read_capacity() == old(self).read_capacity(),
            final(self).write_capacity() == old(self).write_capacity(),
            r.is_ok() <==> read_converges(
                old(self).read_side(),
                old(self).write_side(),
                old(self).read_capacity() as int,
                want as int,
            ),
            r.is_ok() ==> r.unwrap()@ == old(self).stream().take(want as int),
            r.is_ok() && want > 0 ==> {
                &&& final(self).read_side() == read_final_read(
                    old(self).read_side(),
                    old(self).write_side(),
                    want as int,
                )
                &&& final(self).write_side() == read_final_write(
                    old(self).read_side(),
                    old(self).write_side(),
                    want as int,
                )
                &&& final(self).stream() == old(self).stream().skip(want as int)
                &&& final(self).read_state() == ReadBlockingStates::WasJustCompleted
                &&& want > old(self).read_side().len() ==> final(self).write_state()
                    == WriteBlockingStates::Ready
                &&& want <= old(self).read_side().len() ==> final(self).write_state() == old(
                    self,
                ).write_state()
            },
            want == 0 ==> r.is_ok() && r.unwrap()@ == Seq::<u8>::empty() && final(self).stream()
                == old(self).stream(),
            r.is_err() ==> {
                &&& final(self).read_side() == Seq::<u8>::empty()
                &&& final(self).write_side() == (if old(self).write_side().len() <= old(
                    self,
                ).read_capacity() {
                    Seq::<u8>::empty()
                } else {
                    old(self).write_side()
                })
                &&& final(self).read_state() == ReadBlockingStates::NeedsData
            },
    {
        proof {
            self.io_object.lemma_inv();
        }
        // opportunistic pre-step: refill the drained read side so a request
        // the write side can already serve does not wait at all
        if !self.io_object.read_has_any() {
            let migrated = self.attempt_hand_off();
            if migrated {
                self.write.notify_all_of_new_state(WriteBlockingStates::Ready);
            }
        } else {
            self.read.notify_all_of_new_state(ReadBlockingStates::HasData);
        }
        if want == 0 {
            proof {
                assert(self.stream() =~= old(self).stream());
            }
            return Ok(Vec::new());
        }
        let mut out = self.io_object.read_some(want);
        if out.len() == want {
            self.read.notify_all_of_new_state(ReadBlockingStates::WasJustCompleted);
            proof {
                assert(out@ =~= old(self).stream().take(want as int));
                assert(self.stream() =~= old(self).stream().skip(want as int));
            }
            return Ok(out);
        }
        // the read side is drained: hand off the write side and continue
        let migrated = self.attempt_hand_off();
        if migrated {
            self.write.notify_all_of_new_state(WriteBlockingStates::Ready);
        }
        if !self.io_object.read_has_any() {
            self.read.notify_all_of_new_state(ReadBlockingStates::NeedsData);
            return Err(CoroutineError::would_block());
        }
        let got = out.len();
        let mut more = self.io_object.read_some(want - got);
        out.append(&mut more);
        if out.len() == want {
            self.read.notify_all_of_new_state(ReadBlockingStates::WasJustCompleted);
            proof {
                assert(out@ =~= old(self).stream().take(want as int));
                assert(self.stream() =~= old(self).stream().skip(want as int));
            }
            return Ok(out);
        }
        self.read.notify_all_of_new_state(ReadBlockingStates::NeedsData);
        Err(CoroutineError::would_block())
    }

    /// The flush rendezvous: report success exactly when every byte written
    /// into this coordinator has been drained by reads — nothing left to
    /// push, nothing left to take. Anything still in flight would need a
    /// peer to drain it, so it is reported as a would-block failure.
    pub fn flush(&mut self) -> (r: Result<(), CoroutineError>)
        requires
            old(self).inv(),
        ensures
            *final(self) == *old(self),
            r.is_ok() <==> flush_ok(old(self).read_side(), old(self).write_side()),
    {
        if self.io_object.write_has_any() {
            return Err(CoroutineError::would_block());
        }
        if self.io_object.read_has_any() {
            return Err(CoroutineError::would_block());
        }
        Ok(())
    }
}

/// Byte-exact round trip (law): starting from a drained coordinator, a
/// write of any byte sequence no longer than either capacity converges
/// without a peer, and an immediate complete read of the same length
/// returns exactly those bytes, in order.
///
/// The one excluded corner is a zero-length sequence on a coordinator whose
/// write capacity is zero: there the write side counts as full and even the
/// no-op write would wait for a hand-off.
pub proof fn lemma_round_trip(bytes: Seq<u8>, rcap: int, wcap: int)
    requires
        0 <= rcap,
        0 <= wcap,
        bytes.len() <= rcap,
        bytes.len() <= wcap,
        bytes.len() > 0 || wcap > 0,
    ensures
        write_converges(Seq::<u8>::empty(), Seq::<u8>::empty(), rcap, wcap, bytes.len() as int),
        ({
            let r1 = write_final_read(Seq::<u8>::empty(), Seq::<u8>::empty(), rcap, wcap, bytes);
            let w1 = write_final_write(Seq::<u8>::empty(), Seq::<u8>::empty(), rcap, wcap, bytes);
            &&& r1 + w1 == bytes
            &&& read_converges(r1, w1, rcap, bytes.len() as int)
            &&& (r1 + w1).take(bytes.len() as int) == bytes
        }),
{
    let empty = Seq::<u8>::empty();
    if bytes.len() > 0 {
        let r1 = write_final_read(empty, empty, rcap, wcap, bytes);
        let w1 = write_final_write(empty, empty, rcap, wcap, bytes);
        if write_migrates(empty, empty, rcap, wcap, bytes.len() as int) {
            assert(r1 + w1 =~= bytes);
        } else {
            assert(r1 + w1 =~= bytes);
        }
        assert((r1 + w1).take(bytes.len() as int) =~= bytes);
    } else {
        let r1 = write_final_read(empty, empty, rcap, wcap, bytes);
        let w1 = write_final_write(empty, empty, rcap, wcap, bytes);
        assert(r1 + w1 =~= bytes);
        assert((r1 + w1).take(bytes.len() as int) =~= bytes);
    }
}

/// Flush barrier (law): the rendezvous reports success exactly when the
/// coordinator's stream is empty. After a non-empty write lands in a
/// drained coordinator the barrier fails, and it keeps failing until a read
/// has drained every byte of that write, after which it succeeds.
pub proof fn lemma_flush_barrier(bytes: Seq<u8>, rcap: int, wcap: int)
    requires
        0 <= rcap,
        0 <= wcap,
        0 < bytes.len(),
        bytes.len() <= rcap,
        bytes.len() <= wcap,
    ensures
        ({
            let r1 = write_final_read(Seq::<u8>::empty(), Seq::<u8>::empty(), rcap, wcap, bytes);
            let w1 = write_final_write(Seq::<u8>::empty(), Seq::<u8>::empty(), rcap, wcap, bytes);
            &&& !flush_ok(r1, w1)
            &&& read_converges(r1, w1, rcap, bytes.len() as int)
            &&& flush_ok(
                read_final_read(r1, w1, bytes.len() as int),
                read_final_write(r1, w1, bytes.len() as int),
            )
        }),
{
    let empty = Seq::<u8>::empty();
    let r1 = write_final_read(empty, empty, rcap, wcap, bytes);
    let w1 = write_final_write(empty, empty, rcap, wcap, bytes);
    lemma_round_trip(bytes, rcap, wcap);
    assert(r1 + w1 == bytes);
    assert(r1.len() + w1.len() == bytes.len());
    let rf = read_final_read(r1, w1, bytes.len() as int);
    if bytes.len() > r1.len() {
        assert(rf =~= Seq::<u8>::empty());
    } else {
        assert(w1.len() == 0);
        assert(rf =~= Seq::<u8>::empty());
    }
}

/// Marker for values that the coordinator layer may share across the
/// hand-off. In a threaded run it stands in for a `Send`/`Sync`
/// obligation; here it only marks the types meant to flow through
/// [`SyncRwBuf`].
pub trait SyncRwAccessable {

}

impl<IoObject: ReadWriteBufferable> SyncRwAccessable for SynchronizedReadWriteBuffer<IoObject> {

}

impl<T: SyncRwAccessable> SyncRwAccessable for std::sync::Arc<T> {

}

/// Shared ownership of a coordinator-accessible value.
pub struct SyncRwBuf<T: SyncRwAccessable> {
    inner: std::sync::Arc<T>,
}

impl<T: SyncRwAccessable> SyncRwBuf<T> {
    /// The shared value.
    pub closed spec fn spec_inner(self) -> T {
        *self.inner
    }

    /// Wrap an already shared value.
    pub fn new(inner: std::sync::Arc<T>) -> (s: SyncRwBuf<T>)
        ensures
            s.spec_inner() == inner,
    {
        SyncRwBuf { inner }
    }

    /// Hand the shared value back out.
    pub fn into_arc(self) -> (a: std::sync::Arc<T>)
        ensures
            a == self.spec_inner(),
    {
        self.inner
    }
}

} // verus!
