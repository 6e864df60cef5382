//! The thinner, single-client transport surface over the same registry: a
//! monocast client owning one in-memory buffered channel of the outside
//! thrift crate, driven through a small set of trusted wrappers, plus the
//! flat chunk descriptors that cross the foreign boundary.
//!
//! The channel's two buffers are opaque to the verifier, so their contents
//! are given names below and every wrapper's contract says, over those
//! names, exactly what the crate's source does.

use vstd::prelude::*;

use crate::interning::Handle;
use crate::interning::InternError;
use crate::interning::InternKey;
use crate::interning::Interns;
use crate::interning::KeyGenerator;

verus! {

/// The outside in-memory channel type, opaque to the verifier.
#[verifier::external_type_specification]
#[verifier::external_body]
pub struct ExTBufferChannel(thrift::transport::TBufferChannel);

/// The bytes waiting in the channel's read buffer, front first.
pub uninterp spec fn tchannel_read_contents(c: thrift::transport::TBufferChannel) -> Seq<u8>;

/// The bytes written to the channel's write buffer and not yet handed over.
pub uninterp spec fn tchannel_write_contents(c: thrift::transport::TBufferChannel) -> Seq<u8>;

/// The fixed capacity the channel's read buffer was created with.
pub uninterp spec fn tchannel_read_capacity(c: thrift::transport::TBufferChannel) -> nat;

/// The fixed capacity the channel's write buffer was created with.
pub uninterp spec fn tchannel_write_capacity(c: thrift::transport::TBufferChannel) -> nat;

/// Relies on thrift's `TBufferChannel::with_capacity`: an empty channel
/// whose two buffers have exactly the given capacities.
#[verifier::external_body]
fn tchannel_with_capacity(read_capacity: usize, write_capacity: usize) -> (c:
    thrift::transport::TBufferChannel)
    ensures
        tchannel_read_contents(c) == Seq::<u8>::empty(),
        tchannel_write_contents(c) == Seq::<u8>::empty(),
        tchannel_read_capacity(c) == read_capacity,
        tchannel_write_capacity(c) == write_capacity,
{
    thrift::transport::TBufferChannel::with_capacity(read_capacity, write_capacity)
}

/// Relies on `io::Write::write` for `TBufferChannel`: appends as many of
/// the bytes as fit the write buffer's free space, returns how many, and
/// never reports an error.
#[verifier::external_body]
fn tchannel_write(channel: &mut thrift::transport::TBufferChannel, bytes: &Vec<u8>) -> (n: usize)
    ensures
        n == vstd::math::min(
            bytes@.len() as int,
            tchannel_write_capacity(*old(channel)) - tchannel_write_contents(*old(channel)).len(),
        ),
        tchannel_write_contents(*final(channel)) == tchannel_write_contents(*old(channel))
            + bytes@.take(n as int),
        tchannel_read_contents(*final(channel)) == tchannel_read_contents(*old(channel)),
        tchannel_read_capacity(*final(channel)) == tchannel_read_capacity(*old(channel)),
        tchannel_write_capacity(*final(channel)) == tchannel_write_capacity(*old(channel)),
{
    match std::io::Write::write(channel, bytes.as_slice()) {
        Ok(n) => n,
        Err(_) => 0,
    }
}

/// Relies on `io::Read::read` for `TBufferChannel`: takes up to `want`
/// bytes off the front of the read buffer and never reports an error.
#[verifier::external_body]
fn tchannel_read(channel: &mut thrift::transport::TBufferChannel, want: usize) -> (out: Vec<u8>)
    ensures
        out@.len() == vstd::math::min(
            want as int,
            tchannel_read_contents(*old(channel)).len() as int,
        ),
        out@ == tchannel_read_contents(*old(channel)).take(out@.len() as int),
        tchannel_read_contents(*final(channel)) == tchannel_read_contents(*old(channel)).skip(
            out@.len() as int,
        ),
        tchannel_write_contents(*final(channel)) == tchannel_write_contents(*old(channel)),
        tchannel_read_capacity(*final(channel)) == tchannel_read_capacity(*old(channel)),
        tchannel_write_capacity(*final(channel)) == tchannel_write_capacity(*old(channel)),
{
    let mut buf = vec![0u8; want];
    let n = std::io::Read::read(channel, &mut buf).unwrap_or(0);
    buf.truncate(n);
    buf
}

/// Relies on thrift's `TBufferChannel::copy_write_buffer_to_read_buffer`:
/// overwrites the read buffer with the write buffer's bytes and empties the
/// write buffer. The source asserts that everything was copied, so the copy
/// must fit the read buffer's capacity.
#[verifier::external_body]
fn tchannel_copy_write_to_read(channel: &mut thrift::transport::TBufferChannel)
    requires
        tchannel_write_contents(*old(channel)).len() <= tchannel_read_capacity(*old(channel)),
    ensures
        tchannel_read_contents(*final(channel)) == tchannel_write_contents(*old(channel)),
        tchannel_write_contents(*final(channel)) == Seq::<u8>::empty(),
        tchannel_read_capacity(*final(channel)) == tchannel_read_capacity(*old(channel)),
        tchannel_write_capacity(*final(channel)) == tchannel_write_capacity(*old(channel)),
{
    channel.copy_write_buffer_to_read_buffer();
}

/// An identity participating in the monocast transport.
#[derive(Debug)]
pub struct User;

/// A single-channel client: one outside buffered channel, with the byte
/// counts of both buffers tracked alongside so that every operation can be
/// guarded and specified without looking inside the opaque value.
pub struct UserClient {
    /// The outside in-memory channel.
    pub channel: thrift::transport::TBufferChannel,
    /// Tracked byte count of the read buffer.
    pub readable: usize,
    /// Tracked byte count of the write buffer.
    pub pending_write: usize,
    /// The read buffer's capacity.
    pub read_capacity: usize,
    /// The write buffer's capacity.
    pub write_capacity: usize,
}

impl UserClient {
    /// The tracked counts mirror the channel's buffers and capacities.
    pub closed spec fn wf(self) -> bool {
        &&& self.readable == tchannel_read_contents(self.channel).len()
        &&& self.pending_write == tchannel_write_contents(self.channel).len()
        &&& self.read_capacity == tchannel_read_capacity(self.channel)
        &&& self.write_capacity == tchannel_write_capacity(self.channel)
        &&& tchannel_write_contents(self.channel).len() <= self.write_capacity
        &&& tchannel_read_contents(self.channel).len() <= usize::MAX
    }

    /// A client over one fresh channel with the given buffer capacities.
    pub fn create_single_buffer_channel(read_capacity: usize, write_capacity: usize) -> (c:
        UserClient)
        ensures
            c.wf(),
            tchannel_read_contents(c.channel) == Seq::<u8>::empty(),
            tchannel_write_contents(c.channel) == Seq::<u8>::empty(),
            tchannel_read_capacity(c.channel) == read_capacity,
            tchannel_write_capacity(c.channel) == write_capacity,
    {
        UserClient {
            channel: tchannel_with_capacity(read_capacity, write_capacity),
            readable: 0,
            pending_write: 0,
            read_capacity,
            write_capacity,
        }
    }

    /// Write as many of `bytes` as the channel accepts in one attempt:
    /// exactly the write buffer's free space, as the outside source shows.
    pub fn write_bytes(&mut self, bytes: &Vec<u8>) -> (n: usize)
        requires
            old(self).wf(),
        ensures
            final(self).wf(),
            n == vstd::math::min(
                bytes@.len() as int,
                old(self).spec_write_capacity() - tchannel_write_contents(
                    old(self).channel,
                ).len(),
            ),
            tchannel_write_contents(final(self).channel) == tchannel_write_contents(
                old(self).channel,
            ) + bytes@.take(n as int),
            tchannel_read_contents(final(self).channel) == tchannel_read_contents(
                old(self).channel,
            ),
            final(self).spec_read_capacity() == old(self).spec_read_capacity(),
            final(self).spec_write_capacity() == old(self).spec_write_capacity(),
    {
        let n = tchannel_write(&mut self.channel, bytes);
        self.pending_write = self.pending_write + n;
        n
    }

    /// Take up to `want` bytes off the front of the read buffer.
    pub fn read_bytes(&mut self, want: usize) -> (out: Vec<u8>)
        requires
            old(self).wf(),
        ensures
            final(self).wf(),
            out@.len() == vstd::math::min(
                want as int,
                tchannel_read_contents(old(self).channel).len() as int,
            ),
            out@ == tchannel_read_contents(old(self).channel).take(out@.len() as int),
            tchannel_read_contents(final(self).channel) == tchannel_read_contents(
                old(self).channel,
            ).skip(out@.len() as int),
            tchannel_write_contents(final(self).channel) == tchannel_write_contents(
                old(self).channel,
            ),
            final(self).spec_read_capacity() == old(self).spec_read_capacity(),
            final(self).spec_write_capacity() == old(self).spec_write_capacity(),
    {
        let out = tchannel_read(&mut self.channel, want);
        self.readable = self.readable - out.len();
        out
    }

    /// The hand-off: move the written bytes into the read buffer. Declined
    /// with an error — where the outside source would abort — when they do
    /// not fit the read buffer's capacity.
    pub fn copy_write_buffer_to_read_buffer(&mut self) -> (r: Result<(), InternError>)
        requires
            old(self).wf(),
        ensures
            final(self).wf(),
            r.is_ok() <==> tchannel_write_contents(old(self).channel).len() <= old(
                self,
            ).spec_read_capacity(),
            r.is_ok() ==> tchannel_read_contents(final(self).channel) == tchannel_write_contents(
                old(self).channel,
            ) && tchannel_write_contents(final(self).channel) == Seq::<u8>::empty(),
            r.is_err() ==> *final(self) == *old(self),
            final(self).spec_read_capacity() == old(self).spec_read_capacity(),
            final(self).spec_write_capacity() == old(self).spec_write_capacity(),
    {
        if self.pending_write > self.read_capacity {
            return Err(InternError::not_registered());
        }
        tchannel_copy_write_to_read(&mut self.channel);
        self.readable = self.pending_write;
        self.pending_write = 0;
        Ok(())
    }

    /// The read buffer's capacity.
    pub closed spec fn spec_read_capacity(self) -> int {
        self.read_capacity as int
    }

    /// The write buffer's capacity.
    pub closed spec fn spec_write_capacity(self) -> int {
        self.write_capacity as int
    }
}

/// A topic of the monocast model: the clients it carries, insertion order
/// kept.
pub struct Topic {
    /// The registered clients.
    pub users: Vec<UserClient>,
}

/// A typed handle into the transport's channel table.
#[derive(Debug, Clone, Copy, PartialEq, Eq, Hash, Structural)]
pub struct ThriftBufferHandle {
    key: InternKey,
}

impl Handle for ThriftBufferHandle {
    closed spec fn spec_key(self) -> InternKey {
        self.key
    }

    fn as_key(&self) -> (k: InternKey) {
        self.key
    }

    fn from_key(key: InternKey) -> (h: Self) {
        ThriftBufferHandle { key }
    }
}

/// A request for a single client with one bidirectional buffer.
#[derive(Debug, Clone, Copy)]
pub struct MonocastClient {
    /// Capacity of the read buffer, in bytes.
    pub read_capacity: u64,
    /// Capacity of the write buffer, in bytes.
    pub write_capacity: u64,
}

/// The requests this transport accepts.
#[derive(Debug, Clone, Copy)]
pub enum ClientRequest {
    /// One client, one channel.
    Monocast(MonocastClient),
}

/// The error of a failed transport creation.
#[derive(Debug, Clone, PartialEq, Eq)]
pub struct ThriftTransportCreationError(String);

impl ThriftTransportCreationError {
    /// A human-readable description of the failure.
    pub fn message(&self) -> String {
        self.0.clone()
    }

    /// Adopt a registry failure.
    pub fn from_intern_error(e: InternError) -> (r: ThriftTransportCreationError) {
        ThriftTransportCreationError(e.message())
    }
}

/// The boundary-facing outcome of a creation request.
#[derive(Debug, Clone, Copy, PartialEq, Eq, Structural)]
pub enum ClientCreationResult {
    /// The handle of the created client.
    Created(ThriftBufferHandle),
    /// Creation failed.
    Failed,
}

/// The error of a failed transport operation.
#[derive(Debug, Clone, PartialEq, Eq)]
pub struct ThriftTransportError(String);

impl ThriftTransportError {
    /// A human-readable description of the failure.
    pub fn message(&self) -> String {
        self.0.clone()
    }

    /// Adopt a registry failure.
    pub fn from_intern_error(e: InternError) -> (r: ThriftTransportError) {
        ThriftTransportError(e.message())
    }
}

/// A caller-owned byte region crossing the foreign boundary, rendered as an
/// owned buffer: the payload plus the capacity of the region it came from.
/// Invariant: the payload never exceeds the capacity.
#[derive(Debug, Clone, PartialEq, Eq)]
pub struct ThriftChunk {
    /// The payload: the first `len` bytes of the caller's region.
    pub bytes: Vec<u8>,
    /// The capacity of the caller's region.
    pub capacity: u64,
}

impl ThriftChunk {
    /// The payload fits the region it describes.
    pub open spec fn wf(self) -> bool {
        self.bytes@.len() <= self.capacity
    }
}

/// The boundary-facing outcome of a write: how many bytes were accepted.
#[derive(Debug, Clone, Copy, PartialEq, Eq, Structural)]
pub enum ThriftWriteResult {
    /// This many bytes were written.
    Written(u64),
    /// The write failed.
    Failed,
}

/// The boundary-facing outcome of a read: how many bytes were produced.
#[derive(Debug, Clone, Copy, PartialEq, Eq, Structural)]
pub enum ThriftReadResult {
    /// This many bytes were read.
    Read(u64),
    /// The read failed.
    Failed,
}

/// The transport's own registry: one table of channel clients served by its
/// own generator.
pub struct TransportSpace {
    generator: KeyGenerator,
    clients: Interns<UserClient>,
}

impl TransportSpace {
    /// The client table.
    pub closed spec fn spec_clients(self) -> Interns<UserClient> {
        self.clients
    }

    /// The generator serving the table.
    pub closed spec fn spec_generator(self) -> KeyGenerator {
        self.generator
    }

    /// Well-formed: unique keys below the cursor, stored clients coherent.
    pub open spec fn wf(self) -> bool {
        &&& self.spec_clients().wf()
        &&& self.spec_clients().keys_below(self.spec_generator().spec_next())
        &&& forall|k: u64|
            #[trigger] self.spec_clients().contains_spec(k) ==> self.spec_clients().value_spec(
                k,
            ).wf()
    }

    /// An empty transport registry.
    pub fn new() -> (t: TransportSpace)
        ensures
            t.wf(),
            forall|k: u64| !t.spec_clients().contains_spec(k),
    {
        TransportSpace { generator: KeyGenerator::new(), clients: Interns::new() }
    }

    /// Create and intern a client for `request`. Fails only when the key
    /// space is exhausted.
    pub fn create_client(&mut self, request: ClientRequest) -> (r: Result<
        ThriftBufferHandle,
        ThriftTransportCreationError,
    >)
        requires
            old(self).wf(),
        ensures
            final(self).wf(),
            r.is_ok() <==> old(self).spec_generator().spec_next() < u64::MAX,
            r.is_ok() ==> {
                &&& final(self).spec_clients().contains_spec(
                    r.unwrap().spec_key().spec_value(),
                )
                &&& !old(self).spec_clients().contains_spec(r.unwrap().spec_key().spec_value())
                &&& tchannel_read_contents(
                    final(self).spec_clients().value_spec(
                        r.unwrap().spec_key().spec_value(),
                    ).channel,
                ) == Seq::<u8>::empty()
                &&& tchannel_write_contents(
                    final(self).spec_clients().value_spec(
                        r.unwrap().spec_key().spec_value(),
                    ).channel,
                ) == Seq::<u8>::empty()
                &&& forall|q: u64|
                    q != r.unwrap().spec_key().spec_value() ==> (#[trigger] final(self).spec_clients().contains_spec(q) <==> old(self).spec_clients().contains_spec(
                        q,
                    ))
            },
    {
        let client = match request {
            ClientRequest::Monocast(monocast) => {
                UserClient::create_single_buffer_channel(
                    monocast.read_capacity as usize,
                    monocast.write_capacity as usize,
                )
            },
        };
        let ghost inst = client;
        match self.clients.intern(&mut self.generator, client) {
            Ok(key) => {
                proof {
                    assert forall|k: u64| #[trigger] self.clients.contains_spec(k)
                        implies self.clients.value_spec(k).wf() by {
                        if k != key.spec_value() {
                            assert(old(self).spec_clients().contains_spec(k));
                        } else {
                            assert(self.clients.value_spec(k) == inst);
                        }
                    };
                }
                Ok(ThriftBufferHandle::from_key(key))
            },
            Err(e) => Err(ThriftTransportCreationError::from_intern_error(e)),
        }
    }

    /// Write the chunk's payload into the handle's channel: as many bytes
    /// as the write buffer accepts in this one attempt.
    pub fn write_buffer(&mut self, handle: &ThriftBufferHandle, chunk: &ThriftChunk) -> (r: Result<
        usize,
        ThriftTransportError,
    >)
        requires
            old(self).wf(),
        ensures
            final(self).wf(),
            r.is_ok() <==> old(self).spec_clients().contains_spec(handle.spec_key().spec_value()),
            r.is_ok() ==> ({
                let pre_client = old(self).spec_clients().value_spec(
                    handle.spec_key().spec_value(),
                );
                let post_client = final(self).spec_clients().value_spec(
                    handle.spec_key().spec_value(),
                );
                &&& r.unwrap() == vstd::math::min(
                    chunk.bytes@.len() as int,
                    pre_client.spec_write_capacity() - tchannel_write_contents(
                        pre_client.channel,
                    ).len(),
                )
                &&& tchannel_write_contents(post_client.channel) == tchannel_write_contents(
                    pre_client.channel,
                ) + chunk.bytes@.take(r.unwrap() as int)
                &&& tchannel_read_contents(post_client.channel) == tchannel_read_contents(
                    pre_client.channel,
                )
            }),
            forall|q: u64|
                #[trigger] final(self).spec_clients().contains_spec(q) <==> old(
                    self,
                ).spec_clients().contains_spec(q),
            forall|q: u64|
                q != handle.spec_key().spec_value() && old(self).spec_clients().contains_spec(q)
                    ==> #[trigger] final(self).spec_clients().value_spec(q) == old(
                    self,
                ).spec_clients().value_spec(q),
            r.is_err() ==> *final(self) == *old(self),
    {
        let mut client = match self.clients.take(handle.as_key()) {
            Ok(client) => client,
            Err(e) => {
                return Err(ThriftTransportError::from_intern_error(e));
            },
        };
        let written = client.write_bytes(&chunk.bytes);
        proof {
            old(self).spec_clients().lemma_contained_below(
                handle.spec_key().spec_value(),
                old(self).spec_generator().spec_next(),
            );
        }
        self.clients.restore(handle.as_key(), client);
        Ok(written)
    }

    /// Read up to the chunk's payload length from the handle's channel into
    /// a fresh chunk of the same capacity, its length set to what was read.
    pub fn read_buffer(&mut self, handle: &ThriftBufferHandle, chunk: &ThriftChunk) -> (r: Result<
        ThriftChunk,
        ThriftTransportError,
    >)
        requires
            old(self).wf(),
        ensures
            final(self).wf(),
            r.is_ok() <==> old(self).spec_clients().contains_spec(handle.spec_key().spec_value()),
            r.is_ok() ==> ({
                let pre_client = old(self).spec_clients().value_spec(
                    handle.spec_key().spec_value(),
                );
                let post_client = final(self).spec_clients().value_spec(
                    handle.spec_key().spec_value(),
                );
                &&& r.unwrap().bytes@ == tchannel_read_contents(pre_client.channel).take(
                    vstd::math::min(
                        chunk.bytes@.len() as int,
                        tchannel_read_contents(pre_client.channel).len() as int,
                    ),
                )
                &&& r.unwrap().capacity == chunk.capacity
                &&& tchannel_read_contents(post_client.channel) == tchannel_read_contents(
                    pre_client.channel,
                ).skip(r.unwrap().bytes@.len() as int)
                &&& tchannel_write_contents(post_client.channel) == tchannel_write_contents(
                    pre_client.channel,
                )
            }),
            forall|q: u64|
                #[trigger] final(self).spec_clients().contains_spec(q) <==> old(
                    self,
                ).spec_clients().contains_spec(q),
            forall|q: u64|
                q != handle.spec_key().spec_value() && old(self).spec_clients().contains_spec(q)
                    ==> #[trigger] final(self).spec_clients().value_spec(q) == old(
                    self,
                ).spec_clients().value_spec(q),
            r.is_err() ==> *final(self) == *old(self),
    {
        let mut client = match self.clients.take(handle.as_key()) {
            Ok(client) => client,
            Err(e) => {
                return Err(ThriftTransportError::from_intern_error(e));
            },
        };
        let out = client.read_bytes(chunk.bytes.len());
        proof {
            old(self).spec_clients().lemma_contained_below(
                handle.spec_key().spec_value(),
                old(self).spec_generator().spec_next(),
            );
        }
        self.clients.restore(handle.as_key(), client);
        Ok(ThriftChunk { bytes: out, capacity: chunk.capacity })
    }

    /// The hand-off on the handle's channel: move the written bytes into
    /// the read buffer, as the paired test of a write and a read does.
    pub fn copy_write_buffer_to_read_buffer(&mut self, handle: &ThriftBufferHandle) -> (r: Result<
        (),
        ThriftTransportError,
    >)
        requires
            old(self).wf(),
        ensures
            final(self).wf(),
            r.is_ok() <==> (old(self).spec_clients().contains_spec(handle.spec_key().spec_value())
                && tchannel_write_contents(
                old(self).spec_clients().value_spec(handle.spec_key().spec_value()).channel,
            ).len() <= old(self).spec_clients().value_spec(
                handle.spec_key().spec_value(),
            ).spec_read_capacity()),
            r.is_ok() ==> ({
                let post_client = final(self).spec_clients().value_spec(
                    handle.spec_key().spec_value(),
                );
                let pre_client = old(self).spec_clients().value_spec(
                    handle.spec_key().spec_value(),
                );
                &&& tchannel_read_contents(post_client.channel) == tchannel_write_contents(
                    pre_client.channel,
                )
                &&& tchannel_write_contents(post_client.channel) == Seq::<u8>::empty()
            }),
            forall|q: u64|
                #[trigger] final(self).spec_clients().contains_spec(q) <==> old(
                    self,
                ).spec_clients().contains_spec(q),
            forall|q: u64|
                q != handle.spec_key().spec_value() && old(self).spec_clients().contains_spec(q)
                    ==> #[trigger] final(self).spec_clients().value_spec(q) == old(
                    self,
                ).spec_clients().value_spec(q),
    {
        let mut client = match self.clients.take(handle.as_key()) {
            Ok(client) => client,
            Err(e) => {
                return Err(ThriftTransportError::from_intern_error(e));
            },
        };
        let copied = client.copy_write_buffer_to_read_buffer();
        proof {
            old(self).spec_clients().lemma_contained_below(
                handle.spec_key().spec_value(),
                old(self).spec_generator().spec_next(),
            );
        }
        self.clients.restore(handle.as_key(), client);
        match copied {
            Ok(_) => Ok(()),
            Err(e) => Err(ThriftTransportError::from_intern_error(e)),
        }
    }
}

} // verus!
