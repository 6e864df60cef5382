//! User clients: one user's participation endpoint in a topic, owning the
//! buffered-channel coordinator that peers broadcast into and that its own
//! reads drain.

use vstd::prelude::*;

use crate::coroutines::ByteBufferChannel;
use crate::coroutines::ReadWriteBufferable;
use crate::coroutines::SynchronizedReadWriteBuffer;
use crate::interning::Handle;
use crate::interning::InternError;
use crate::interning::InternKey;
use crate::lifecycle::ExternallyManagedLifecycle;
use crate::topic::TopicHandle;
use crate::user::UserHandle;
use crate::user_kind::UserKindHandle;

verus! {

/// A typed handle into the client table.
#[derive(Debug, Clone, Copy, PartialEq, Eq, Hash, Structural)]
pub struct UserClientHandle {
    key: InternKey,
}

impl Handle for UserClientHandle {
    closed spec fn spec_key(self) -> InternKey {
        self.key
    }

    fn as_key(&self) -> (k: InternKey) {
        self.key
    }

    fn from_key(key: InternKey) -> (h: Self) {
        UserClientHandle { key }
    }
}

impl UserClientHandle {
    /// The handle carrying `key`.
    pub closed spec fn spec_from_key(key: InternKey) -> UserClientHandle {
        UserClientHandle { key }
    }
}

/// Building a client handle from a key and reading the key back are
/// inverses.
pub proof fn lemma_client_handle_from_key(key: InternKey)
    ensures
        UserClientHandle::spec_from_key(key).spec_key() == key,
{
}

/// A client handle is nothing but its key: handles are equal exactly when
/// their keys are.
pub proof fn lemma_client_handle_injective(a: UserClientHandle, b: UserClientHandle)
    ensures
        (a == b) <==> (a.spec_key() == b.spec_key()),
{
}

/// One user's endpoint in one topic: the identity, the topic, the kind its
/// broadcasts target — no filter means every peer matches — and the
/// coordinator that holds its in-flight bytes.
pub struct UserClient {
    /// The owning user.
    pub user: UserHandle,
    /// The topic this client participates in.
    pub topic: TopicHandle,
    /// The kind broadcast from this client targets; `None` broadcasts to
    /// every other member.
    pub target_kind: Option<UserKindHandle>,
    /// The bounded channel peers write into and this client reads from.
    pub transport_state: SynchronizedReadWriteBuffer<ByteBufferChannel>,
}

impl UserClient {
    /// The client is well-formed when its coordinator is.
    pub open spec fn wf(self) -> bool {
        self.transport_state.inv()
    }

    /// Build a client around one fresh bounded buffer channel of the given
    /// capacities.
    pub fn create_single_buffer_channel(
        read_capacity: usize,
        write_capacity: usize,
        user: UserHandle,
        topic: TopicHandle,
        target_kind: Option<UserKindHandle>,
    ) -> (c: UserClient)
        ensures
            c.wf(),
            c.user == user,
            c.topic == topic,
            c.target_kind == target_kind,
            c.transport_state.stream() == Seq::<u8>::empty(),
            c.transport_state.read_capacity() == read_capacity,
            c.transport_state.write_capacity() == write_capacity,
    {
        let channel = ByteBufferChannel::with_capacity(read_capacity, write_capacity);
        UserClient {
            user,
            topic,
            target_kind,
            transport_state: SynchronizedReadWriteBuffer::new(channel),
        }
    }
}

/// Whether one complete write of `bytes` into this client's coordinator
/// converges without a peer hand-off.
pub open spec fn write_would_converge(c: UserClient, bytes: Seq<u8>) -> bool {
    crate::coroutines::write_converges(
        c.transport_state.read_side(),
        c.transport_state.write_side(),
        c.transport_state.read_capacity() as int,
        c.transport_state.write_capacity() as int,
        bytes.len() as int,
    )
}

/// Whether one complete read of `want` bytes from this client's
/// coordinator converges without a peer hand-off.
pub open spec fn read_would_converge(c: UserClient, want: int) -> bool {
    crate::coroutines::read_converges(
        c.transport_state.read_side(),
        c.transport_state.write_side(),
        c.transport_state.read_capacity() as int,
        want,
    )
}

/// The shape one complete-write attempt of `bytes` leaves a peer's client
/// in: the identity fields untouched, and the coordinator changed exactly
/// as [`crate::coroutines::SynchronizedReadWriteBuffer::write_until_complete`]
/// says — converged when [`crate::coroutines::write_converges`] held of the
/// prior state, blocked with as much written as fit otherwise.
pub open spec fn delivered_client(pre: UserClient, post: UserClient, bytes: Seq<u8>) -> bool {
    let r0 = pre.transport_state.read_side();
    let w0 = pre.transport_state.write_side();
    let rc = pre.transport_state.read_capacity() as int;
    let wc = pre.transport_state.write_capacity() as int;
    &&& post.user == pre.user
    &&& post.topic == pre.topic
    &&& post.target_kind == pre.target_kind
    &&& post.wf()
    &&& post.transport_state.read_capacity() == pre.transport_state.read_capacity()
    &&& post.transport_state.write_capacity() == pre.transport_state.write_capacity()
    &&& bytes.len() == 0 ==> post.transport_state.stream() == pre.transport_state.stream()
    &&& crate::coroutines::write_converges(r0, w0, rc, wc, bytes.len() as int) && bytes.len() > 0
        ==> {
        &&& post.transport_state.read_side() == crate::coroutines::write_final_read(
            r0,
            w0,
            rc,
            wc,
            bytes,
        )
        &&& post.transport_state.write_side() == crate::coroutines::write_final_write(
            r0,
            w0,
            rc,
            wc,
            bytes,
        )
        &&& post.transport_state.stream() == pre.transport_state.stream() + bytes
    }
    &&& !crate::coroutines::write_converges(r0, w0, rc, wc, bytes.len() as int) && bytes.len() > 0
        ==> {
        &&& post.transport_state.read_side() == crate::coroutines::write_blocked_read(
            r0,
            w0,
            rc,
            wc,
            bytes,
        )
        &&& post.transport_state.write_side() == crate::coroutines::write_blocked_write(
            r0,
            w0,
            rc,
            wc,
            bytes,
        )
    }
}

/// The shape one complete-read attempt of `want` bytes leaves a client in:
/// the identity fields untouched, and the coordinator changed exactly as
/// [`crate::coroutines::SynchronizedReadWriteBuffer::read_until_complete`]
/// says.
pub open spec fn drained_client(pre: UserClient, post: UserClient, want: int) -> bool {
    let r0 = pre.transport_state.read_side();
    let w0 = pre.transport_state.write_side();
    let rc = pre.transport_state.read_capacity() as int;
    &&& post.user == pre.user
    &&& post.topic == pre.topic
    &&& post.target_kind == pre.target_kind
    &&& post.wf()
    &&& post.transport_state.read_capacity() == pre.transport_state.read_capacity()
    &&& post.transport_state.write_capacity() == pre.transport_state.write_capacity()
    &&& crate::coroutines::read_converges(r0, w0, rc, want) && want > 0 ==> {
        &&& post.transport_state.read_side() == crate::coroutines::read_final_read(r0, w0, want)
        &&& post.transport_state.write_side() == crate::coroutines::read_final_write(r0, w0, want)
        &&& post.transport_state.stream() == pre.transport_state.stream().skip(want)
    }
    &&& want == 0 ==> post.transport_state.stream() == pre.transport_state.stream()
    &&& !crate::coroutines::read_converges(r0, w0, rc, want) ==> {
        &&& post.transport_state.read_side() == Seq::<u8>::empty()
        &&& post.transport_state.write_side() == (if w0.len() <= rc {
            Seq::<u8>::empty()
        } else {
            w0
        })
    }
}

/// The error of a failed client operation: a dangling handle, a violated
/// topic invariant, or a transfer that would wait forever for a peer.
#[derive(Debug, Clone, PartialEq, Eq)]
pub struct UserClientHandleError(String);

impl UserClientHandleError {
    /// A human-readable description of the failure.
    pub fn message(&self) -> String {
        self.0.clone()
    }

    /// Adopt a registry failure.
    pub fn from_intern_error(e: InternError) -> (r: UserClientHandleError) {
        UserClientHandleError(e.message())
    }

    /// Adopt a plain message.
    pub fn from_message(message: String) -> (r: UserClientHandleError) {
        UserClientHandleError(message)
    }

    /// Relies on `std::io::Error::new`: wraps this failure's message into an
    /// I/O error value for callers that speak `std::io`.
    #[verifier::external_body]
    pub fn into_io_error(self) -> std::io::Error {
        std::io::Error::new(std::io::ErrorKind::Other, self.0)
    }
}

/// The request that creates a client: the channel capacities and the keys
/// of the user, the topic, and the kind its broadcasts target.
#[derive(Debug, Clone, Copy)]
pub struct UserClientRequest {
    /// Capacity of the read buffer, in bytes.
    pub read_capacity: u64,
    /// Capacity of the write buffer, in bytes.
    pub write_capacity: u64,
    user_key: InternKey,
    topic_key: InternKey,
    target_kind_key: InternKey,
}

impl UserClientRequest {
    /// The read capacity the request carries.
    pub closed spec fn spec_read_capacity(self) -> u64 {
        self.read_capacity
    }

    /// The write capacity the request carries.
    pub closed spec fn spec_write_capacity(self) -> u64 {
        self.write_capacity
    }

    /// The user key the request carries.
    pub closed spec fn spec_user_key(self) -> InternKey {
        self.user_key
    }

    /// The topic key the request carries.
    pub closed spec fn spec_topic_key(self) -> InternKey {
        self.topic_key
    }

    /// The target kind key the request carries.
    pub closed spec fn spec_target_kind_key(self) -> InternKey {
        self.target_kind_key
    }

    /// The handle of the user this client will belong to.
    pub fn user(&self) -> (h: UserHandle)
        ensures
            h.spec_key() == self.spec_user_key(),
    {
        UserHandle::from_key(self.user_key)
    }

    /// The handle of the topic this client will join.
    pub fn topic(&self) -> (h: TopicHandle)
        ensures
            h.spec_key() == self.spec_topic_key(),
    {
        TopicHandle::from_key(self.topic_key)
    }

    /// The handle of the kind this client's broadcasts will target.
    pub fn target_kind(&self) -> (h: UserKindHandle)
        ensures
            h.spec_key() == self.spec_target_kind_key(),
    {
        UserKindHandle::from_key(self.target_kind_key)
    }

    /// A request carrying the given capacities and handles.
    pub fn new(
        read_capacity: usize,
        write_capacity: usize,
        user: UserHandle,
        topic: TopicHandle,
        target_kind: UserKindHandle,
    ) -> (r: UserClientRequest)
        ensures
            r.spec_read_capacity() == read_capacity as u64,
            r.spec_write_capacity() == write_capacity as u64,
            r.spec_user_key() == user.spec_key(),
            r.spec_topic_key() == topic.spec_key(),
            r.spec_target_kind_key() == target_kind.spec_key(),
    {
        UserClientRequest {
            read_capacity: read_capacity as u64,
            write_capacity: write_capacity as u64,
            user_key: user.as_key(),
            topic_key: topic.as_key(),
            target_kind_key: target_kind.as_key(),
        }
    }
}

impl ExternallyManagedLifecycle for UserClientRequest {
    type Instance = UserClient;

    type HandleType = UserClientHandle;

    type ErrorType = UserClientHandleError;

    fn make_instance(&self) -> (r: Result<UserClient, UserClientHandleError>)
        ensures
            r.is_ok(),
            r.unwrap().wf(),
            r.unwrap().user.spec_key() == self.spec_user_key(),
            r.unwrap().topic.spec_key() == self.spec_topic_key(),
            r.unwrap().target_kind.is_some(),
            r.unwrap().target_kind.unwrap().spec_key() == self.spec_target_kind_key(),
            r.unwrap().transport_state.stream() == Seq::<u8>::empty(),
            r.unwrap().transport_state.read_capacity() == self.spec_read_capacity() as usize,
            r.unwrap().transport_state.write_capacity() == self.spec_write_capacity() as usize,
    {
        Ok(
            UserClient::create_single_buffer_channel(
                self.read_capacity as usize,
                self.write_capacity as usize,
                self.user(),
                self.topic(),
                Some(self.target_kind()),
            ),
        )
    }
}

} // verus!
