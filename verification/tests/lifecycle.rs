//! The lifecycle protocol and the topic broadcast, driven through the hub:
//! creation and destruction ordering, broadcast scoping, and the exchange
//! of messages between two clients of one topic.

use thrift_ffi::hub::receive_topic_messages;
use thrift_ffi::hub::send_topic_messages;
use thrift_ffi::hub::Hub;
use thrift_ffi::interning::Handle;
use thrift_ffi::interning::InternKey;
use thrift_ffi::lifecycle::InternedObjectCreationResult;
use thrift_ffi::lifecycle::InternedObjectDestructionResult;
use thrift_ffi::topic::TopicHandle;
use thrift_ffi::topic::TopicRequest;
use thrift_ffi::transport::ThriftChunk;
use thrift_ffi::transport::ThriftReadResult;
use thrift_ffi::transport::ThriftWriteResult;
use thrift_ffi::user::UserHandle;
use thrift_ffi::user::UserRequest;
use thrift_ffi::user_client::UserClientHandle;
use thrift_ffi::user_client::UserClientRequest;
use thrift_ffi::user_kind::UserKindHandle;
use thrift_ffi::user_kind::UserKindRequest;

fn created(result: InternedObjectCreationResult) -> InternKey {
    match result {
        InternedObjectCreationResult::Created(key) => key,
        InternedObjectCreationResult::Failed => panic!("expected a created key"),
    }
}

#[test]
fn invalid_gc_sequence() {
    let mut hub = Hub::new();
    let kind = UserKindHandle::from_key(created(hub.create_user_kind(&UserKindRequest)));
    let user = UserHandle::from_key(created(hub.create_user(&UserRequest::new(kind.as_key()))));
    let topic = TopicHandle::from_key(created(hub.create_topic(&TopicRequest)));

    let handle = created(
        hub.create_user_client(&UserClientRequest::new(0, 0, user, topic, kind)),
    );

    // destroy the user and the topic; the client then fails to deregister
    assert_eq!(
        hub.destroy_user(user.as_key()),
        InternedObjectDestructionResult::Succeeded,
    );
    assert_eq!(
        hub.destroy_topic(topic.as_key()),
        InternedObjectDestructionResult::Succeeded,
    );
    assert_eq!(
        hub.destroy_user_client(handle),
        InternedObjectDestructionResult::Failed,
    );
}

#[test]
fn lib_write_then_read() -> Result<(), String> {
    let capacity: usize = 400;
    let mut hub = Hub::new();
    let kind = UserKindHandle::from_key(created(hub.create_user_kind(&UserKindRequest)));
    let topic = TopicHandle::from_key(created(hub.create_topic(&TopicRequest)));

    let message1: &[u8] = "asdf".as_bytes();
    let user1 = UserHandle::from_key(created(hub.create_user(&UserRequest::new(kind.as_key()))));
    let client1 = UserClientHandle::from_key(
        created(hub.create_user_client(&UserClientRequest::new(
            capacity, capacity, user1, topic, kind,
        ))),
    );

    // the same topic, a second user
    let message2: &[u8] = "fdsa!!!".as_bytes();
    let user2 = UserHandle::from_key(created(hub.create_user(&UserRequest::new(kind.as_key()))));
    let client2 = UserClientHandle::from_key(
        created(hub.create_user_client(&UserClientRequest::new(
            capacity, capacity, user2, topic, kind,
        ))),
    );

    let written1 = hub.client_write(client1, message1).map_err(|e| e.message())?;
    assert_eq!(written1, message1.len());

    let written2 = hub.client_write(client2, message2).map_err(|e| e.message())?;
    assert_eq!(written2, message2.len());

    // each client reads back exactly what the other broadcast
    let read1 = hub.client_read(client1, message2.len()).map_err(|e| e.message())?;
    assert_eq!(read1.len(), written2);
    assert_eq!(read1.as_slice(), message2);

    let read2 = hub.client_read(client2, message1.len()).map_err(|e| e.message())?;
    assert_eq!(read2.len(), written1);
    assert_eq!(read2.as_slice(), message1);

    assert_eq!(
        hub.destroy_user_client(client1.as_key()),
        InternedObjectDestructionResult::Succeeded
    );
    // attempting to garbage collect again fails
    assert_eq!(
        hub.destroy_user_client(client1.as_key()),
        InternedObjectDestructionResult::Failed,
    );

    assert_eq!(
        hub.destroy_user_client(client2.as_key()),
        InternedObjectDestructionResult::Succeeded
    );
    assert_eq!(hub.destroy_user(user1.as_key()), InternedObjectDestructionResult::Succeeded);
    assert_eq!(hub.destroy_user(user2.as_key()), InternedObjectDestructionResult::Succeeded);
    assert_eq!(hub.destroy_topic(topic.as_key()), InternedObjectDestructionResult::Succeeded);
    Ok(())
}

#[test]
fn broadcast_reaches_matching_kinds_only() {
    let mut hub = Hub::new();
    let kind1 = UserKindHandle::from_key(created(hub.create_user_kind(&UserKindRequest)));
    let kind2 = UserKindHandle::from_key(created(hub.create_user_kind(&UserKindRequest)));
    let topic = TopicHandle::from_key(created(hub.create_topic(&TopicRequest)));

    let user_a = UserHandle::from_key(created(hub.create_user(&UserRequest::new(kind1.as_key()))));
    let user_b = UserHandle::from_key(created(hub.create_user(&UserRequest::new(kind1.as_key()))));
    let user_c = UserHandle::from_key(created(hub.create_user(&UserRequest::new(kind2.as_key()))));

    let client_a = UserClientHandle::from_key(
        created(hub.create_user_client(&UserClientRequest::new(16, 16, user_a, topic, kind1))),
    );
    let client_b = UserClientHandle::from_key(
        created(hub.create_user_client(&UserClientRequest::new(16, 16, user_b, topic, kind1))),
    );
    let client_c = UserClientHandle::from_key(
        created(hub.create_user_client(&UserClientRequest::new(16, 16, user_c, topic, kind2))),
    );

    // a separate topic whose client must observe nothing
    let other_topic = TopicHandle::from_key(created(hub.create_topic(&TopicRequest)));
    let user_d = UserHandle::from_key(created(hub.create_user(&UserRequest::new(kind1.as_key()))));
    let client_d = UserClientHandle::from_key(
        created(hub.create_user_client(&UserClientRequest::new(16, 16, user_d, other_topic, kind1))),
    );

    let sent = hub.client_write(client_a, b"ping").unwrap();
    assert_eq!(sent, 4);

    // the matching peer observes the broadcast
    let got = hub.client_read(client_b, 4).unwrap();
    assert_eq!(got.as_slice(), b"ping");

    // the peer of the other kind observes nothing
    assert!(hub.client_read(client_c, 1).is_err());
    // the sender's own coordinator stays empty
    assert!(hub.client_read(client_a, 1).is_err());
    // a client of another topic observes nothing
    assert!(hub.client_read(client_d, 1).is_err());
}

#[test]
fn broadcast_flush_waits_for_the_peer_to_drain() {
    let mut hub = Hub::new();
    let kind = UserKindHandle::from_key(created(hub.create_user_kind(&UserKindRequest)));
    let topic = TopicHandle::from_key(created(hub.create_topic(&TopicRequest)));
    let user_a = UserHandle::from_key(created(hub.create_user(&UserRequest::new(kind.as_key()))));
    let user_b = UserHandle::from_key(created(hub.create_user(&UserRequest::new(kind.as_key()))));
    let client_a = UserClientHandle::from_key(
        created(hub.create_user_client(&UserClientRequest::new(8, 8, user_a, topic, kind))),
    );
    let client_b = UserClientHandle::from_key(
        created(hub.create_user_client(&UserClientRequest::new(8, 8, user_b, topic, kind))),
    );

    assert!(hub.client_flush(client_a).is_ok());
    hub.client_write(client_a, b"data").unwrap();
    // the peer has not drained the broadcast yet
    assert!(hub.client_flush(client_a).is_err());
    let got = hub.client_read(client_b, 4).unwrap();
    assert_eq!(got.as_slice(), b"data");
    assert!(hub.client_flush(client_a).is_ok());
    let _ = client_b;
}

#[test]
fn duplicate_registration_fails_and_leaks_the_intern() {
    let mut hub = Hub::new();
    let kind = UserKindHandle::from_key(created(hub.create_user_kind(&UserKindRequest)));
    let topic = TopicHandle::from_key(created(hub.create_topic(&TopicRequest)));
    let user = UserHandle::from_key(created(hub.create_user(&UserRequest::new(kind.as_key()))));

    let first = hub.create_user_client(&UserClientRequest::new(4, 4, user, topic, kind));
    assert!(matches!(first, InternedObjectCreationResult::Created(_)));
    // the same user in the same topic violates the membership invariant
    let second = hub.create_user_client(&UserClientRequest::new(4, 4, user, topic, kind));
    assert_eq!(second, InternedObjectCreationResult::Failed);
}

#[test]
fn chunk_boundary_send_and_receive() {
    let mut hub = Hub::new();
    let kind = UserKindHandle::from_key(created(hub.create_user_kind(&UserKindRequest)));
    let topic = TopicHandle::from_key(created(hub.create_topic(&TopicRequest)));
    let user_a = UserHandle::from_key(created(hub.create_user(&UserRequest::new(kind.as_key()))));
    let user_b = UserHandle::from_key(created(hub.create_user(&UserRequest::new(kind.as_key()))));
    let client_a = created(hub.create_user_client(&UserClientRequest::new(8, 8, user_a, topic, kind)));
    let client_b = created(hub.create_user_client(&UserClientRequest::new(8, 8, user_b, topic, kind)));

    let outgoing = ThriftChunk { bytes: b"hello".to_vec(), capacity: 8 };
    match send_topic_messages(&mut hub, client_a, &outgoing) {
        ThriftWriteResult::Written(n) => assert_eq!(n, 5),
        ThriftWriteResult::Failed => panic!("the broadcast failed"),
    }

    let incoming = ThriftChunk { bytes: vec![0u8; 5], capacity: 8 };
    let (filled, result) = receive_topic_messages(&mut hub, client_b, incoming);
    match result {
        ThriftReadResult::Read(n) => assert_eq!(n, 5),
        ThriftReadResult::Failed => panic!("the receive failed"),
    }
    assert_eq!(filled.bytes.as_slice(), b"hello");
    assert_eq!(filled.capacity, 8);
}

#[test]
fn matching_set_contains_exactly_the_matching_peers() {
    let mut hub = Hub::new();
    let kind1 = UserKindHandle::from_key(created(hub.create_user_kind(&UserKindRequest)));
    let kind2 = UserKindHandle::from_key(created(hub.create_user_kind(&UserKindRequest)));
    let topic = TopicHandle::from_key(created(hub.create_topic(&TopicRequest)));
    let user_a = UserHandle::from_key(created(hub.create_user(&UserRequest::new(kind1.as_key()))));
    let user_b = UserHandle::from_key(created(hub.create_user(&UserRequest::new(kind1.as_key()))));
    let user_c = UserHandle::from_key(created(hub.create_user(&UserRequest::new(kind2.as_key()))));
    let client_a = UserClientHandle::from_key(
        created(hub.create_user_client(&UserClientRequest::new(4, 4, user_a, topic, kind1))),
    );
    let client_b = UserClientHandle::from_key(
        created(hub.create_user_client(&UserClientRequest::new(4, 4, user_b, topic, kind1))),
    );
    let client_c = UserClientHandle::from_key(
        created(hub.create_user_client(&UserClientRequest::new(4, 4, user_c, topic, kind2))),
    );

    let matching = hub.other_matching_clients(client_a).unwrap();
    assert_eq!(matching.len(), 1);
    assert_eq!(matching[0], client_b);
    let _ = client_c;

    // a dangling user in the membership map fails the whole resolution
    assert_eq!(hub.destroy_user(user_b.as_key()), InternedObjectDestructionResult::Succeeded);
    assert!(hub.other_matching_clients(client_a).is_err());
}
