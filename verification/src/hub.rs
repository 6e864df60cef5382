//! The registry space: one key generator serving the four tables of the
//! domain — kinds, users, topics, clients — plus the two-phase lifecycle
//! protocol over them and the topic-scoped broadcast operations.
//!
//! The tables form one explicit value, passed to everything that needs
//! them rather than living in process-wide singletons, which is what makes
//! the operations below provable and the tests deterministic.

use vstd::prelude::*;

use crate::interning::Handle;
use crate::interning::InternError;
use crate::interning::InternKey;
use crate::interning::Interns;
use crate::interning::KeyGenerator;
use crate::lifecycle::ExternallyManagedLifecycle;
use crate::lifecycle::InternedObjectCreationResult;
use crate::lifecycle::InternedObjectDestructionResult;
use crate::topic::Topic;
use crate::topic::TopicHandle;
use crate::topic::TopicRequest;
use crate::user::User;
use crate::user::UserHandle;
use crate::user::UserRequest;
use crate::user_client::UserClient;
use crate::user_client::UserClientHandle;
use crate::user_client::UserClientHandleError;
use crate::user_client::UserClientRequest;
use crate::user_kind::UserKind;
use crate::user_kind::UserKindHandle;
use crate::user_kind::UserKindRequest;
use crate::transport::ThriftChunk;
use crate::transport::ThriftReadResult;
use crate::transport::ThriftWriteResult;

verus! {

/// The four intern tables and the one generator they share.
pub struct Hub {
    generator: KeyGenerator,
    user_kinds: Interns<UserKind>,
    users: Interns<User>,
    topics: Interns<Topic>,
    user_clients: Interns<UserClient>,
}

impl Hub {
    /// The shared key generator.
    pub closed spec fn spec_generator(self) -> KeyGenerator {
        self.generator
    }

    /// The kind table.
    pub closed spec fn spec_user_kinds(self) -> Interns<UserKind> {
        self.user_kinds
    }

    /// The user table.
    pub closed spec fn spec_users(self) -> Interns<User> {
        self.users
    }

    /// The topic table.
    pub closed spec fn spec_topics(self) -> Interns<Topic> {
        self.topics
    }

    /// The client table.
    pub closed spec fn spec_user_clients(self) -> Interns<UserClient> {
        self.user_clients
    }

    /// Whether another object can still be interned: the shared key space
    /// is not exhausted.
    pub open spec fn can_intern(self) -> bool {
        self.spec_generator().spec_next() < u64::MAX
    }

    /// Well-formed: every table has unique keys below the shared cursor;
    /// every stored topic and client is itself well-formed; and every
    /// topic's member clients carry keys below the cursor, which keeps a
    /// freshly interned client distinct from every registered one.
    pub open spec fn wf(self) -> bool {
        &&& self.spec_user_kinds().wf()
        &&& self.spec_user_kinds().keys_below(self.spec_generator().spec_next())
        &&& self.spec_users().wf()
        &&& self.spec_users().keys_below(self.spec_generator().spec_next())
        &&& self.spec_topics().wf()
        &&& self.spec_topics().keys_below(self.spec_generator().spec_next())
        &&& self.spec_user_clients().wf()
        &&& self.spec_user_clients().keys_below(self.spec_generator().spec_next())
        &&& forall|k: u64|
            #[trigger] self.spec_topics().contains_spec(k) ==> self.spec_topics().value_spec(
                k,
            ).wf() && self.spec_topics().value_spec(k).clients_below(
                self.spec_generator().spec_next(),
            )
        &&& forall|k: u64|
            #[trigger] self.spec_user_clients().contains_spec(k)
                ==> self.spec_user_clients().value_spec(k).wf()
    }

    /// An empty registry space.
    pub fn new() -> (h: Hub)
        ensures
            h.wf(),
            h.spec_generator().spec_next() == 0,
            forall|k: u64| !h.spec_user_kinds().contains_spec(k),
            forall|k: u64| !h.spec_users().contains_spec(k),
            forall|k: u64| !h.spec_topics().contains_spec(k),
            forall|k: u64| !h.spec_user_clients().contains_spec(k),
    {
        Hub {
            generator: KeyGenerator::new(),
            user_kinds: Interns::new(),
            users: Interns::new(),
            topics: Interns::new(),
            user_clients: Interns::new(),
        }
    }

    /// Create a kind: construct, intern, register (kinds need no
    /// cross-references). Fails only when the key space is exhausted.
    pub fn create_user_kind(&mut self, request: &UserKindRequest) -> (r:
        InternedObjectCreationResult)
        requires
            old(self).wf(),
        ensures
            final(self).wf(),
            r is Created <==> old(self).can_intern(),
            r matches InternedObjectCreationResult::Created(k) ==> {
                &&& k.spec_value() == old(self).spec_generator().spec_next()
                &&& final(self).spec_user_kinds().contains_spec(k.spec_value())
                &&& !old(self).spec_user_kinds().contains_spec(k.spec_value())
                &&& forall|q: u64|
                    q != k.spec_value() ==> (final(self).spec_user_kinds().contains_spec(q)
                        <==> old(self).spec_user_kinds().contains_spec(q))
            },
            r is Failed ==> *final(self) == *old(self),
            final(self).spec_users() == old(self).spec_users(),
            final(self).spec_topics() == old(self).spec_topics(),
            final(self).spec_user_clients() == old(self).spec_user_clients(),
    {
        let instance = match request.make_instance() {
            Ok(instance) => instance,
            Err(_) => {
                return InternedObjectCreationResult::Failed;
            },
        };
        let r = match self.user_kinds.intern(&mut self.generator, instance) {
            Ok(key) => InternedObjectCreationResult::Created(key),
            Err(_) => InternedObjectCreationResult::Failed,
        };
        proof {
            let pre_next = old(self).spec_generator().spec_next();
            let next = self.generator.spec_next();
            self.users.lemma_keys_below_mono(pre_next, next);
            self.topics.lemma_keys_below_mono(pre_next, next);
            self.user_clients.lemma_keys_below_mono(pre_next, next);
            assert forall|k: u64| #[trigger] self.topics.contains_spec(k)
                implies self.topics.value_spec(k).clients_below(next) by {
                let t = self.topics.value_spec(k);
                assert(old(self).spec_topics().contains_spec(k));
                assert(t.clients_below(pre_next));
                assert forall|i: int| 0 <= i < t.members().len()
                    implies (#[trigger] t.members()[i]).1.spec_key().spec_value() < next by {};
            };
        }
        r
    }

    /// Destroy a kind: deregister (nothing to undo) and collect. Succeeds
    /// exactly once per key.
    pub fn destroy_user_kind(&mut self, key: InternKey) -> (r: InternedObjectDestructionResult)
        requires
            old(self).wf(),
        ensures
            final(self).wf(),
            r is Succeeded <==> old(self).spec_user_kinds().contains_spec(key.spec_value()),
            !final(self).spec_user_kinds().contains_spec(key.spec_value()),
            forall|q: u64|
                q != key.spec_value() ==> (final(self).spec_user_kinds().contains_spec(q)
                    <==> old(self).spec_user_kinds().contains_spec(q)),
            final(self).spec_generator() == old(self).spec_generator(),
            final(self).spec_users() == old(self).spec_users(),
            final(self).spec_topics() == old(self).spec_topics(),
            final(self).spec_user_clients() == old(self).spec_user_clients(),
    {
        match self.user_kinds.garbage_collect(key) {
            Ok(_) => InternedObjectDestructionResult::Succeeded,
            Err(_) => InternedObjectDestructionResult::Failed,
        }
    }

    /// Create a user of the kind the request names. The kind key is adopted
    /// as given — like every handle it may dangle. Fails only when the key
    /// space is exhausted.
    pub fn create_user(&mut self, request: &UserRequest) -> (r: InternedObjectCreationResult)
        requires
            old(self).wf(),
        ensures
            final(self).wf(),
            r is Created <==> old(self).can_intern(),
            r matches InternedObjectCreationResult::Created(k) ==> {
                &&& k.spec_value() == old(self).spec_generator().spec_next()
                &&& final(self).spec_users().contains_spec(k.spec_value())
                &&& !old(self).spec_users().contains_spec(k.spec_value())
                &&& final(self).spec_users().value_spec(k.spec_value()).kind.spec_key()
                    == request.spec_kind()
                &&& forall|q: u64|
                    q != k.spec_value() ==> (final(self).spec_users().contains_spec(q)
                        <==> old(self).spec_users().contains_spec(q))
                &&& forall|q: u64|
                    q != k.spec_value() && old(self).spec_users().contains_spec(q) ==> final(self).spec_users().value_spec(q) == old(self).spec_users().value_spec(q)
            },
            r is Failed ==> *final(self) == *old(self),
            final(self).spec_user_kinds() == old(self).spec_user_kinds(),
            final(self).spec_topics() == old(self).spec_topics(),
            final(self).spec_user_clients() == old(self).spec_user_clients(),
    {
        let instance = match request.make_instance() {
            Ok(instance) => instance,
            Err(_) => {
                return InternedObjectCreationResult::Failed;
            },
        };
        let r = match self.users.intern(&mut self.generator, instance) {
            Ok(key) => InternedObjectCreationResult::Created(key),
            Err(_) => InternedObjectCreationResult::Failed,
        };
        proof {
            let pre_next = old(self).spec_generator().spec_next();
            let next = self.generator.spec_next();
            self.user_kinds.lemma_keys_below_mono(pre_next, next);
            self.topics.lemma_keys_below_mono(pre_next, next);
            self.user_clients.lemma_keys_below_mono(pre_next, next);
            assert forall|k: u64| #[trigger] self.topics.contains_spec(k)
                implies self.topics.value_spec(k).clients_below(next) by {
                let t = self.topics.value_spec(k);
                assert(old(self).spec_topics().contains_spec(k));
                assert(t.clients_below(pre_next));
                assert forall|i: int| 0 <= i < t.members().len()
                    implies (#[trigger] t.members()[i]).1.spec_key().spec_value() < next by {};
            };
        }
        r
    }

    /// Destroy a user. Succeeds exactly once per key; clients that still
    /// reference the user simply dangle afterwards.
    pub fn destroy_user(&mut self, key: InternKey) -> (r: InternedObjectDestructionResult)
        requires
            old(self).wf(),
        ensures
            final(self).wf(),
            r is Succeeded <==> old(self).spec_users().contains_spec(key.spec_value()),
            !final(self).spec_users().contains_spec(key.spec_value()),
            forall|q: u64|
                q != key.spec_value() ==> (final(self).spec_users().contains_spec(q)
                    <==> old(self).spec_users().contains_spec(q)),
            forall|q: u64|
                q != key.spec_value() && old(self).spec_users().contains_spec(q) ==> final(self).spec_users().value_spec(q) == old(self).spec_users().value_spec(q),
            final(self).spec_generator() == old(self).spec_generator(),
            final(self).spec_user_kinds() == old(self).spec_user_kinds(),
            final(self).spec_topics() == old(self).spec_topics(),
            final(self).spec_user_clients() == old(self).spec_user_clients(),
    {
        match self.users.garbage_collect(key) {
            Ok(_) => InternedObjectDestructionResult::Succeeded,
            Err(_) => InternedObjectDestructionResult::Failed,
        }
    }

    /// Create a topic with an empty membership map. Fails only when the key
    /// space is exhausted.
    pub fn create_topic(&mut self, request: &TopicRequest) -> (r: InternedObjectCreationResult)
        requires
            old(self).wf(),
        ensures
            final(self).wf(),
            r is Created <==> old(self).can_intern(),
            r matches InternedObjectCreationResult::Created(k) ==> {
                &&& k.spec_value() == old(self).spec_generator().spec_next()
                &&& final(self).spec_topics().contains_spec(k.spec_value())
                &&& !old(self).spec_topics().contains_spec(k.spec_value())
                &&& final(self).spec_topics().value_spec(k.spec_value()).members().len() == 0
                &&& forall|q: u64|
                    q != k.spec_value() ==> (final(self).spec_topics().contains_spec(q)
                        <==> old(self).spec_topics().contains_spec(q))
                &&& forall|q: u64|
                    q != k.spec_value() && old(self).spec_topics().contains_spec(q) ==> final(self).spec_topics().value_spec(q) == old(self).spec_topics().value_spec(q)
            },
            r is Failed ==> *final(self) == *old(self),
            final(self).spec_user_kinds() == old(self).spec_user_kinds(),
            final(self).spec_users() == old(self).spec_users(),
            final(self).spec_user_clients() == old(self).spec_user_clients(),
    {
        let instance = match request.make_instance() {
            Ok(instance) => instance,
            Err(_) => {
                return InternedObjectCreationResult::Failed;
            },
        };
        let ghost inst = instance;
        let r = match self.topics.intern(&mut self.generator, instance) {
            Ok(key) => InternedObjectCreationResult::Created(key),
            Err(_) => InternedObjectCreationResult::Failed,
        };
        proof {
            let pre_next = old(self).spec_generator().spec_next();
            let next = self.generator.spec_next();
            self.user_kinds.lemma_keys_below_mono(pre_next, next);
            self.users.lemma_keys_below_mono(pre_next, next);
            self.user_clients.lemma_keys_below_mono(pre_next, next);
            assert forall|k: u64| #[trigger] self.topics.contains_spec(k)
                implies self.topics.value_spec(k).clients_below(next) && self.topics.value_spec(
                k,
            ).wf() by {
                let t = self.topics.value_spec(k);
                if old(self).spec_topics().contains_spec(k) && t == old(
                    self,
                ).spec_topics().value_spec(k) {
                    assert(t.clients_below(pre_next));
                    assert forall|i: int| 0 <= i < t.members().len()
                        implies (#[trigger] t.members()[i]).1.spec_key().spec_value() < next by {};
                } else {
                    assert(t == inst);
                }
            };
        }
        r
    }

    /// Destroy a topic. Succeeds exactly once per key. Destruction does
    /// not require the membership map to be empty: clients still
    /// registered there are left holding a dangling topic handle.
    pub fn destroy_topic(&mut self, key: InternKey) -> (r: InternedObjectDestructionResult)
        requires
            old(self).wf(),
        ensures
            final(self).wf(),
            r is Succeeded <==> old(self).spec_topics().contains_spec(key.spec_value()),
            !final(self).spec_topics().contains_spec(key.spec_value()),
            forall|q: u64|
                q != key.spec_value() ==> (final(self).spec_topics().contains_spec(q)
                    <==> old(self).spec_topics().contains_spec(q)),
            forall|q: u64|
                q != key.spec_value() && old(self).spec_topics().contains_spec(q) ==> final(self).spec_topics().value_spec(q) == old(self).spec_topics().value_spec(q),
            final(self).spec_generator() == old(self).spec_generator(),
            final(self).spec_user_kinds() == old(self).spec_user_kinds(),
            final(self).spec_users() == old(self).spec_users(),
            final(self).spec_user_clients() == old(self).spec_user_clients(),
    {
        match self.topics.garbage_collect(key) {
            Ok(_) => InternedObjectDestructionResult::Succeeded,
            Err(_) => InternedObjectDestructionResult::Failed,
        }
    }

    /// Whether the registration phase of a client request would succeed:
    /// its topic exists and its user holds no client there yet.
    pub open spec fn client_registration_ok(self, request: UserClientRequest) -> bool {
        &&& self.spec_topics().contains_spec(request.spec_topic_key().spec_value())
        &&& !self.spec_topics().value_spec(
            request.spec_topic_key().spec_value(),
        ).contains_user_key(request.spec_user_key())
    }

    proof fn lemma_tables_after_client_intern(self, pre: Hub, inst: UserClient)
        requires
            pre.wf(),
            pre.can_intern(),
            inst.wf(),
            self.spec_generator().spec_next() == pre.spec_generator().spec_next() + 1,
            self.spec_user_kinds() == pre.spec_user_kinds(),
            self.spec_users() == pre.spec_users(),
            self.spec_topics() == pre.spec_topics(),
            self.spec_user_clients().wf(),
            self.spec_user_clients().keys_below(self.spec_generator().spec_next()),
            forall|q: u64|
                q != pre.spec_generator().spec_next() ==> (
                #[trigger] self.spec_user_clients().contains_spec(q)
                    <==> pre.spec_user_clients().contains_spec(q)),
            forall|q: u64|
                q != pre.spec_generator().spec_next() && pre.spec_user_clients().contains_spec(q)
                    ==> #[trigger] self.spec_user_clients().value_spec(q)
                    == pre.spec_user_clients().value_spec(q),
            self.spec_user_clients().contains_spec(pre.spec_generator().spec_next()),
            self.spec_user_clients().value_spec(pre.spec_generator().spec_next()) == inst,
        ensures
            self.wf(),
    {
        let pre_next = pre.spec_generator().spec_next();
        let next = self.spec_generator().spec_next();
        self.spec_user_kinds().lemma_keys_below_mono(pre_next, next);
        self.spec_users().lemma_keys_below_mono(pre_next, next);
        self.spec_topics().lemma_keys_below_mono(pre_next, next);
        assert forall|k: u64| #[trigger] self.spec_topics().contains_spec(k)
            implies self.spec_topics().value_spec(k).wf() && self.spec_topics().value_spec(
            k,
        ).clients_below(next) by {
            let t = self.spec_topics().value_spec(k);
            assert(pre.spec_topics().contains_spec(k));
            assert(t.clients_below(pre_next));
            assert forall|i: int| 0 <= i < t.members().len()
                implies (#[trigger] t.members()[i]).1.spec_key().spec_value() < next by {};
        };
        assert forall|k: u64| #[trigger] self.spec_user_clients().contains_spec(k)
            implies self.spec_user_clients().value_spec(k).wf() by {
            if k != pre_next {
                assert(pre.spec_user_clients().contains_spec(k));
                assert(self.spec_user_clients().value_spec(k) == pre.spec_user_clients().value_spec(
                    k,
                ));
            } else {
                assert(self.spec_user_clients().value_spec(k) == inst);
            }
        };
    }

    /// Create a client: construct it, intern it, then register it in its
    /// topic's membership map. A failed registration — the topic missing,
    /// or the user already holding a client there — reports `Failed` but
    /// does not roll back the intern: the client stays allocated in the
    /// registry, unreachable by legitimate means. A known open issue of
    /// this design, stated below rather than silently fixed.
    pub fn create_user_client(&mut self, request: &UserClientRequest) -> (r:
        InternedObjectCreationResult)
        requires
            old(self).wf(),
        ensures
            final(self).wf(),
            r is Created <==> old(self).can_intern() && old(self).client_registration_ok(*request),
            r matches InternedObjectCreationResult::Created(k) ==> {
                let tkey = request.spec_topic_key().spec_value();
                let told = old(self).spec_topics().value_spec(tkey);
                let tnew = final(self).spec_topics().value_spec(tkey);
                &&& k.spec_value() == old(self).spec_generator().spec_next()
                &&& final(self).spec_user_clients().contains_spec(k.spec_value())
                &&& !old(self).spec_user_clients().contains_spec(k.spec_value())
                &&& final(self).spec_user_clients().value_spec(k.spec_value()).user.spec_key()
                    == request.spec_user_key()
                &&& final(self).spec_user_clients().value_spec(k.spec_value()).topic.spec_key()
                    == request.spec_topic_key()
                &&& final(self).spec_user_clients().value_spec(k.spec_value()).target_kind.is_some()
                &&& final(self).spec_user_clients().value_spec(
                    k.spec_value(),
                ).target_kind.unwrap().spec_key() == request.spec_target_kind_key()
                &&& final(self).spec_user_clients().value_spec(
                    k.spec_value(),
                ).transport_state.stream() == Seq::<u8>::empty()
                &&& tnew.contains_user_key(request.spec_user_key())
                &&& tnew.client_for_key(request.spec_user_key()).spec_key() == k
                &&& tnew.members().len() == told.members().len() + 1
                &&& tnew.members().take(told.members().len() as int) == told.members()
                &&& tnew.members().last().0.spec_key() == request.spec_user_key()
                &&& tnew.members().last().1.spec_key() == k
            },
            r is Failed && old(self).can_intern() ==> {
                &&& final(self).spec_user_clients().contains_spec(
                    old(self).spec_generator().spec_next(),
                )
                &&& forall|q: u64|
                    (final(self).spec_topics().contains_spec(q) <==> old(
                        self,
                    ).spec_topics().contains_spec(q)) && (old(self).spec_topics().contains_spec(q)
                        ==> final(self).spec_topics().value_spec(q) == old(
                        self,
                    ).spec_topics().value_spec(q))
            },
            r is Failed && !old(self).can_intern() ==> *final(self) == *old(self),
            forall|q: u64|
                q != old(self).spec_generator().spec_next() ==> (#[trigger] final(self).spec_user_clients().contains_spec(q) <==> old(
                    self,
                ).spec_user_clients().contains_spec(q)),
            forall|q: u64|
                q != old(self).spec_generator().spec_next() && old(
                    self,
                ).spec_user_clients().contains_spec(q) ==> #[trigger] final(self).spec_user_clients().value_spec(q) == old(self).spec_user_clients().value_spec(q),
            forall|q: u64|
                q != request.spec_topic_key().spec_value() ==> (#[trigger] final(self).spec_topics().contains_spec(q) <==> old(self).spec_topics().contains_spec(q)),
            forall|q: u64|
                q != request.spec_topic_key().spec_value() && old(self).spec_topics().contains_spec(
                    q,
                ) ==> #[trigger] final(self).spec_topics().value_spec(q) == old(
                    self,
                ).spec_topics().value_spec(q),
            final(self).spec_user_kinds() == old(self).spec_user_kinds(),
            final(self).spec_users() == old(self).spec_users(),
    {
        let instance = match request.make_instance() {
            Ok(instance) => instance,
            Err(_) => {
                return InternedObjectCreationResult::Failed;
            },
        };
        let ghost inst = instance;
        let key = match self.user_clients.intern(&mut self.generator, instance) {
            Ok(key) => key,
            Err(_) => {
                return InternedObjectCreationResult::Failed;
            },
        };
        proof {
            self.lemma_tables_after_client_intern(*old(self), inst);
        }
        let client_handle = UserClientHandle::from_key(key);
        let user_handle = request.user();
        let topic_handle = request.topic();
        let mut topic = match self.topics.take(topic_handle.as_key()) {
            Ok(topic) => topic,
            Err(_) => {
                return InternedObjectCreationResult::Failed;
            },
        };
        proof {
            let tkey = request.spec_topic_key().spec_value();
            assert(old(self).spec_topics().contains_spec(tkey));
            assert(topic == old(self).spec_topics().value_spec(tkey));
            assert(topic.clients_below(old(self).spec_generator().spec_next()));
            if topic.contains_client(client_handle) {
                let i = choose|i: int|
                    0 <= i < topic.members().len() && topic.members()[i].1 == client_handle;
                assert(topic.members()[i].1.spec_key().spec_value() < old(
                    self,
                ).spec_generator().spec_next());
            }
            topic.lemma_user_key_bridge(user_handle);
        }
        let registered = topic.register_client(user_handle, client_handle);
        proof {
            topic.lemma_user_key_bridge(user_handle);
            old(self).spec_topics().lemma_contained_below(
                request.spec_topic_key().spec_value(),
                old(self).spec_generator().spec_next(),
            );
            self.topics.lemma_keys_below_mono(
                old(self).spec_generator().spec_next(),
                self.generator.spec_next(),
            );
        }
        self.topics.restore(topic_handle.as_key(), topic);
        proof {
            let tkey = request.spec_topic_key().spec_value();
            let next = self.generator.spec_next();
            assert forall|k: u64| #[trigger] self.topics.contains_spec(k)
                implies self.topics.value_spec(k).wf() && self.topics.value_spec(
                k,
            ).clients_below(next) by {
                let t = self.topics.value_spec(k);
                if k != tkey {
                    assert(old(self).spec_topics().contains_spec(k));
                    assert(t == old(self).spec_topics().value_spec(k));
                    assert(t.clients_below(old(self).spec_generator().spec_next()));
                    assert forall|i: int| 0 <= i < t.members().len()
                        implies (#[trigger] t.members()[i]).1.spec_key().spec_value() < next by {};
                } else {
                    let told = old(self).spec_topics().value_spec(tkey);
                    assert(told.clients_below(old(self).spec_generator().spec_next()));
                    assert forall|i: int| 0 <= i < told.members().len()
                        implies (#[trigger] told.members()[i]).1.spec_key().spec_value()
                        < next by {};
                    assert(told.clients_below(next));
                }
            };
        }
        match registered {
            Ok(_) => InternedObjectCreationResult::Created(key),
            Err(_) => InternedObjectCreationResult::Failed,
        }
    }

    /// Destroy a client: deregister it from its topic's membership map, and
    /// only on success garbage-collect it. Fails — collecting nothing —
    /// when the client key dangles, when its topic has itself been
    /// destroyed, or when its user's registration is already gone.
    pub fn destroy_user_client(&mut self, key: InternKey) -> (r: InternedObjectDestructionResult)
        requires
            old(self).wf(),
        ensures
            final(self).wf(),
            r is Succeeded <==> ({
                let c = old(self).spec_user_clients().value_spec(key.spec_value());
                &&& old(self).spec_user_clients().contains_spec(key.spec_value())
                &&& old(self).spec_topics().contains_spec(c.topic.spec_key().spec_value())
                &&& old(self).spec_topics().value_spec(
                    c.topic.spec_key().spec_value(),
                ).contains_user_key(c.user.spec_key())
            }),
            r is Succeeded ==> {
                let c = old(self).spec_user_clients().value_spec(key.spec_value());
                let tkey = c.topic.spec_key().spec_value();
                &&& !final(self).spec_user_clients().contains_spec(key.spec_value())
                &&& !final(self).spec_topics().value_spec(tkey).contains_user_key(
                    c.user.spec_key(),
                )
                &&& forall|q: u64|
                    q != tkey ==> (#[trigger] final(self).spec_topics().contains_spec(q) <==> old(
                        self,
                    ).spec_topics().contains_spec(q))
                &&& forall|q: u64|
                    q != tkey && old(self).spec_topics().contains_spec(q) ==> #[trigger] final(self).spec_topics().value_spec(q) == old(self).spec_topics().value_spec(q)
                &&& final(self).spec_topics().contains_spec(tkey)
            },
            r is Failed ==> final(self).spec_user_clients() == old(self).spec_user_clients(),
            r is Failed ==> forall|q: u64|
                (#[trigger] final(self).spec_topics().contains_spec(q) <==> old(
                    self,
                ).spec_topics().contains_spec(q)) && (old(self).spec_topics().contains_spec(q)
                    ==> final(self).spec_topics().value_spec(q) == old(self).spec_topics().value_spec(q)),
            forall|q: u64|
                q != key.spec_value() ==> (#[trigger] final(self).spec_user_clients().contains_spec(
                    q,
                ) <==> old(self).spec_user_clients().contains_spec(q)),
            forall|q: u64|
                q != key.spec_value() && old(self).spec_user_clients().contains_spec(q)
                    ==> #[trigger] final(self).spec_user_clients().value_spec(q) == old(
                    self,
                ).spec_user_clients().value_spec(q),
            final(self).spec_generator() == old(self).spec_generator(),
            final(self).spec_user_kinds() == old(self).spec_user_kinds(),
            final(self).spec_users() == old(self).spec_users(),
    {
        let (user_handle, topic_handle) = match self.user_clients.get(key) {
            Ok(client) => (client.user, client.topic),
            Err(_) => {
                return InternedObjectDestructionResult::Failed;
            },
        };
        let mut topic = match self.topics.take(topic_handle.as_key()) {
            Ok(topic) => topic,
            Err(_) => {
                return InternedObjectDestructionResult::Failed;
            },
        };
        proof {
            topic.lemma_user_key_bridge(user_handle);
        }
        let deregistered = topic.deregister_user(user_handle);
        proof {
            topic.lemma_user_key_bridge(user_handle);
            old(self).spec_topics().lemma_contained_below(
                topic_handle.spec_key().spec_value(),
                old(self).spec_generator().spec_next(),
            );
            self.topics.lemma_keys_below_mono(
                old(self).spec_generator().spec_next(),
                self.generator.spec_next(),
            );
        }
        self.topics.restore(topic_handle.as_key(), topic);
        proof {
            let tkey = topic_handle.spec_key().spec_value();
            let next = self.generator.spec_next();
            assert forall|k: u64| #[trigger] self.topics.contains_spec(k)
                implies self.topics.value_spec(k).wf() && self.topics.value_spec(
                k,
            ).clients_below(next) by {
                let t = self.topics.value_spec(k);
                if k != tkey {
                    assert(old(self).spec_topics().contains_spec(k));
                    assert(t == old(self).spec_topics().value_spec(k));
                } else {
                    let told = old(self).spec_topics().value_spec(tkey);
                    assert(told.clients_below(next));
                }
            };
        }
        match deregistered {
            Ok(_) => {
                match self.user_clients.garbage_collect(key) {
                    Ok(_) => InternedObjectDestructionResult::Succeeded,
                    Err(_) => InternedObjectDestructionResult::Failed,
                }
            },
            Err(_) => InternedObjectDestructionResult::Failed,
        }
    }

    /// Whether membership entry `m` is a broadcast target for a sender:
    /// another user's client whose user's kind matches the sender's target
    /// kind — no kind filter means no match restriction.
    pub open spec fn member_matches(
        self,
        sender: UserHandle,
        target: Option<UserKindHandle>,
        m: (UserHandle, UserClientHandle),
    ) -> bool {
        &&& m.0 != sender
        &&& (target.is_none() || (self.spec_users().contains_spec(m.0.spec_key().spec_value())
            && self.spec_users().value_spec(m.0.spec_key().spec_value()).kind == target.unwrap()))
    }

    /// Whether a broadcast from `client` can resolve its targets: the
    /// client exists, its topic exists, and every member's user can be
    /// dereferenced. A dangling user handle anywhere in the membership map
    /// fails the whole resolution, before anything is written.
    pub open spec fn broadcast_resolves(self, client: UserClientHandle) -> bool {
        &&& self.spec_user_clients().contains_spec(client.spec_key().spec_value())
        &&& {
            let c = self.spec_user_clients().value_spec(client.spec_key().spec_value());
            &&& self.spec_topics().contains_spec(c.topic.spec_key().spec_value())
            &&& forall|i: int|
                0 <= i < self.spec_topics().value_spec(
                    c.topic.spec_key().spec_value(),
                ).members().len() ==> self.spec_users().contains_spec(
                    (#[trigger] self.spec_topics().value_spec(
                        c.topic.spec_key().spec_value(),
                    ).members()[i]).0.spec_key().spec_value(),
                )
        }
    }

    /// The clients of the matching members of `members`, in order.
    pub open spec fn matching_clients_of(
        self,
        members: Seq<(UserHandle, UserClientHandle)>,
        sender: UserHandle,
        target: Option<UserKindHandle>,
    ) -> Seq<UserClientHandle>
        decreases members.len(),
    {
        if members.len() == 0 {
            Seq::<UserClientHandle>::empty()
        } else {
            let rest = self.matching_clients_of(members.drop_last(), sender, target);
            if self.member_matches(sender, target, members.last()) {
                rest.push(members.last().1)
            } else {
                rest
            }
        }
    }

    /// The clients in `client`'s topic that a broadcast from it reaches:
    /// every other member whose user's kind matches the sender's target
    /// kind. Fails exactly when the resolution fails — the client or its
    /// topic dangling, or any member's user dangling.
    pub fn other_matching_clients(&self, client: UserClientHandle) -> (r: Result<
        Vec<UserClientHandle>,
        UserClientHandleError,
    >)
        requires
            self.wf(),
        ensures
            r.is_ok() <==> self.broadcast_resolves(client),
            r.is_ok() ==> r.unwrap()@ == self.matching_clients_of(
                self.spec_topics().value_spec(
                    self.spec_user_clients().value_spec(
                        client.spec_key().spec_value(),
                    ).topic.spec_key().spec_value(),
                ).members(),
                self.spec_user_clients().value_spec(client.spec_key().spec_value()).user,
                self.spec_user_clients().value_spec(client.spec_key().spec_value()).target_kind,
            ),
    {
        let (sender_user, sender_topic, sender_target) = match self.user_clients.get(
            client.as_key(),
        ) {
            Ok(c) => (c.user, c.topic, c.target_kind),
            Err(e) => {
                return Err(UserClientHandleError::from_intern_error(e));
            },
        };
        let topic = match self.topics.get(sender_topic.as_key()) {
            Ok(topic) => topic,
            Err(e) => {
                return Err(UserClientHandleError::from_intern_error(e));
            },
        };
        let ghost ms = topic.members();
        let n = topic.user_client_mapping.len();
        let mut matching: Vec<UserClientHandle> = Vec::new();
        let mut i: usize = 0;
        while i < n
            invariant
                self.wf(),
                n == ms.len(),
                0 <= i <= n,
                ms == topic.members(),
                *topic == self.spec_topics().value_spec(
                    self.spec_user_clients().value_spec(
                        client.spec_key().spec_value(),
                    ).topic.spec_key().spec_value(),
                ),
                self.spec_topics().contains_spec(
                    self.spec_user_clients().value_spec(
                        client.spec_key().spec_value(),
                    ).topic.spec_key().spec_value(),
                ),
                self.spec_user_clients().contains_spec(client.spec_key().spec_value()),
                sender_user == self.spec_user_clients().value_spec(
                    client.spec_key().spec_value(),
                ).user,
                sender_target == self.spec_user_clients().value_spec(
                    client.spec_key().spec_value(),
                ).target_kind,
                forall|j: int|
                    0 <= j < i ==> self.spec_users().contains_spec(
                        (#[trigger] ms[j]).0.spec_key().spec_value(),
                    ),
                matching@ == self.matching_clients_of(ms.take(i as int), sender_user, sender_target),
            decreases n - i,
        {
            let m = topic.user_client_mapping[i];
            let kind = match self.users.get(m.0.as_key()) {
                Ok(u) => u.kind,
                Err(e) => {
                    return Err(UserClientHandleError::from_intern_error(e));
                },
            };
            let matched = m.0 != sender_user && (sender_target.is_none() || kind
                == sender_target.unwrap());
            proof {
                assert(ms.take(i + 1).drop_last() =~= ms.take(i as int));
                assert(ms.take(i + 1).last() == ms[i as int]);
                assert(matched == self.member_matches(sender_user, sender_target, ms[i as int]));
            }
            if matched {
                matching.push(m.1);
            }
            i = i + 1;
        }
        proof {
            assert(ms.take(n as int) =~= ms);
        }
        Ok(matching)
    }

    /// Broadcast `bytes` from `client`: perform, sequentially on the
    /// caller's stack, one complete write against every matching peer's own
    /// coordinator. Failures — a dangling peer, or a transfer that would
    /// wait forever for that peer to drain — do not short-circuit: every
    /// peer is attempted, the failures are merged into one error, and the
    /// deliveries that succeeded stay delivered.
    pub fn client_write(&mut self, client: UserClientHandle, bytes: &[u8]) -> (r: Result<
        usize,
        UserClientHandleError,
    >)
        requires
            old(self).wf(),
        ensures
            final(self).wf(),
            final(self).spec_generator() == old(self).spec_generator(),
            final(self).spec_user_kinds() == old(self).spec_user_kinds(),
            final(self).spec_users() == old(self).spec_users(),
            forall|q: u64|
                (#[trigger] final(self).spec_topics().contains_spec(q) <==> old(
                    self,
                ).spec_topics().contains_spec(q)) && (old(self).spec_topics().contains_spec(q)
                    ==> final(self).spec_topics().value_spec(q) == old(
                    self,
                ).spec_topics().value_spec(q)),
            forall|q: u64|
                #[trigger] final(self).spec_user_clients().contains_spec(q) <==> old(
                    self,
                ).spec_user_clients().contains_spec(q),
            !old(self).broadcast_resolves(client) ==> r.is_err() && (forall|q: u64|
                old(self).spec_user_clients().contains_spec(q) ==> #[trigger] final(self).spec_user_clients().value_spec(q) == old(self).spec_user_clients().value_spec(q)),
            old(self).broadcast_resolves(client) ==> ({
                let c = old(self).spec_user_clients().value_spec(client.spec_key().spec_value());
                let ms = old(self).spec_topics().value_spec(
                    c.topic.spec_key().spec_value(),
                ).members();
                &&& (r.is_ok() <==> forall|i: int|
                    0 <= i < ms.len() && old(self).member_matches(
                        c.user,
                        c.target_kind,
                        #[trigger] ms[i],
                    ) ==> old(self).spec_user_clients().contains_spec(ms[i].1.spec_key().spec_value())
                        && crate::user_client::write_would_converge(
                        old(self).spec_user_clients().value_spec(ms[i].1.spec_key().spec_value()),
                        bytes@,
                    ))
                &&& forall|i: int|
                    0 <= i < ms.len() && old(self).member_matches(
                        c.user,
                        c.target_kind,
                        #[trigger] ms[i],
                    ) && old(self).spec_user_clients().contains_spec(ms[i].1.spec_key().spec_value())
                        ==> crate::user_client::delivered_client(
                        old(self).spec_user_clients().value_spec(ms[i].1.spec_key().spec_value()),
                        final(self).spec_user_clients().value_spec(ms[i].1.spec_key().spec_value()),
                        bytes@,
                    )
                &&& forall|q: u64|
                    old(self).spec_user_clients().contains_spec(q) && (forall|i: int|
                        0 <= i < ms.len() && old(self).member_matches(
                            c.user,
                            c.target_kind,
                            #[trigger] ms[i],
                        ) ==> ms[i].1.spec_key().spec_value() != q) ==> #[trigger] final(self).spec_user_clients().value_spec(q) == old(self).spec_user_clients().value_spec(
                        q,
                    )
            }),
            r.is_ok() ==> r.unwrap() == bytes@.len(),
    {
        let ghost pre = *old(self);
        let (sender_user, sender_topic, sender_target) = match self.user_clients.get(
            client.as_key(),
        ) {
            Ok(c) => (c.user, c.topic, c.target_kind),
            Err(e) => {
                return Err(UserClientHandleError::from_intern_error(e));
            },
        };
        let ghost tkey = sender_topic.spec_key().spec_value();
        let ghost ckey = client.spec_key().spec_value();
        // first pass: resolve every member's user before any write happens
        {
            let topic_ref = match self.topics.get(sender_topic.as_key()) {
                Ok(topic_ref) => topic_ref,
                Err(e) => {
                    return Err(UserClientHandleError::from_intern_error(e));
                },
            };
            let ghost ms = topic_ref.members();
            let n = topic_ref.user_client_mapping.len();
            let mut i: usize = 0;
            while i < n
                invariant
                    *self == *old(self),
                    pre == *old(self),
                    pre.wf(),
                    n == ms.len(),
                    0 <= i <= n,
                    ms == topic_ref.members(),
                    *topic_ref == pre.spec_topics().value_spec(tkey),
                    pre.spec_topics().contains_spec(tkey),
                    tkey == sender_topic.spec_key().spec_value(),
                    ckey == client.spec_key().spec_value(),
                    pre.spec_user_clients().contains_spec(ckey),
                    sender_topic == pre.spec_user_clients().value_spec(ckey).topic,
                    forall|j: int|
                        0 <= j < i ==> pre.spec_users().contains_spec(
                            (#[trigger] ms[j]).0.spec_key().spec_value(),
                        ),
                decreases n - i,
            {
                if !self.users.contains_key(topic_ref.user_client_mapping[i].0.as_key()) {
                    proof {
                        let c = pre.spec_user_clients().value_spec(ckey);
                        assert(pre.spec_topics().value_spec(
                            c.topic.spec_key().spec_value(),
                        ).members()[i as int] == ms[i as int]);
                        assert(!pre.spec_users().contains_spec(
                            ms[i as int].0.spec_key().spec_value(),
                        ));
                        assert(!pre.broadcast_resolves(client));
                    }
                    return Err(
                        UserClientHandleError::from_intern_error(InternError::not_registered()),
                    );
                }
                i = i + 1;
            }
        }
        let topic = match self.topics.take(sender_topic.as_key()) {
            Ok(topic) => topic,
            Err(e) => {
                return Err(UserClientHandleError::from_intern_error(e));
            },
        };
        let ghost ms = topic.members();
        let n = topic.user_client_mapping.len();
        // second pass: one complete write per matching peer, failures merged
        let mut all_ok: bool = true;
        let mut merged = String::new();
        let mut i: usize = 0;
        while i < n
            invariant
                pre == *old(self),
                pre.wf(),
                0 <= i <= n,
                n == ms.len(),
                ms == topic.members(),
                topic == pre.spec_topics().value_spec(tkey),
                topic.wf(),
                pre.spec_topics().contains_spec(tkey),
                ckey == client.spec_key().spec_value(),
                tkey == sender_topic.spec_key().spec_value(),
                pre.spec_user_clients().contains_spec(ckey),
                sender_user == pre.spec_user_clients().value_spec(ckey).user,
                sender_target == pre.spec_user_clients().value_spec(ckey).target_kind,
                sender_topic == pre.spec_user_clients().value_spec(ckey).topic,
                forall|j: int|
                    0 <= j < ms.len() ==> pre.spec_users().contains_spec(
                        (#[trigger] ms[j]).0.spec_key().spec_value(),
                    ),
                self.generator == pre.spec_generator(),
                self.users == pre.spec_users(),
                self.user_kinds == pre.spec_user_kinds(),
                !self.topics.contains_spec(tkey),
                self.topics.wf(),
                self.topics.keys_below(self.generator.spec_next()),
                forall|q: u64|
                    q != tkey ==> (#[trigger] self.topics.contains_spec(q)
                        <==> pre.spec_topics().contains_spec(q)),
                forall|q: u64|
                    q != tkey && pre.spec_topics().contains_spec(q)
                        ==> #[trigger] self.topics.value_spec(q) == pre.spec_topics().value_spec(q),
                self.user_clients.wf(),
                self.user_clients.keys_below(self.generator.spec_next()),
                forall|q: u64|
                    #[trigger] self.user_clients.contains_spec(q)
                        <==> pre.spec_user_clients().contains_spec(q),
                forall|q: u64|
                    #[trigger] self.user_clients.contains_spec(q)
                        ==> self.user_clients.value_spec(q).wf(),
                forall|j: int|
                    0 <= j < i && pre.member_matches(sender_user, sender_target, #[trigger] ms[j])
                        && pre.spec_user_clients().contains_spec(ms[j].1.spec_key().spec_value())
                        ==> crate::user_client::delivered_client(
                        pre.spec_user_clients().value_spec(ms[j].1.spec_key().spec_value()),
                        self.user_clients.value_spec(ms[j].1.spec_key().spec_value()),
                        bytes@,
                    ),
                forall|q: u64|
                    pre.spec_user_clients().contains_spec(q) && (forall|j: int|
                        0 <= j < i && pre.member_matches(
                            sender_user,
                            sender_target,
                            #[trigger] ms[j],
                        ) ==> ms[j].1.spec_key().spec_value() != q)
                        ==> #[trigger] self.user_clients.value_spec(q)
                        == pre.spec_user_clients().value_spec(q),
                all_ok <==> (forall|j: int|
                    0 <= j < i && pre.member_matches(sender_user, sender_target, #[trigger] ms[j])
                        ==> pre.spec_user_clients().contains_spec(ms[j].1.spec_key().spec_value())
                        && crate::user_client::write_would_converge(
                        pre.spec_user_clients().value_spec(ms[j].1.spec_key().spec_value()),
                        bytes@,
                    )),
            decreases n - i,
        {
            let m = topic.user_client_mapping[i];
            let kind = match self.users.get(m.0.as_key()) {
                Ok(u) => u.kind,
                Err(e) => {
                    // the first pass resolved every member's user
                    proof {
                        assert(false);
                    }
                    self.topics.restore(sender_topic.as_key(), topic);
                    return Err(UserClientHandleError::from_intern_error(e));
                },
            };
            let matched = m.0 != sender_user && (sender_target.is_none() || kind
                == sender_target.unwrap());
            proof {
                assert(matched == pre.member_matches(sender_user, sender_target, ms[i as int]));
            }
            if matched {
                proof {
                    // this peer is untouched so far: earlier matched members
                    // carry different client handles (the topic's invariant)
                    assert forall|j: int|
                        0 <= j < i && pre.member_matches(
                            sender_user,
                            sender_target,
                            #[trigger] ms[j],
                        ) implies ms[j].1.spec_key().spec_value()
                        != ms[i as int].1.spec_key().spec_value() by {
                        assert(0 <= j < topic.members().len());
                        assert((i as int) < topic.members().len());
                        assert(topic.members()[j] == ms[j]);
                        assert(topic.members()[i as int] == ms[i as int]);
                        assert(topic.members()[j].1 != topic.members()[i as int].1);
                        crate::user_client::lemma_client_handle_injective(
                            ms[j].1,
                            ms[i as int].1,
                        );
                        crate::interning::lemma_intern_key_injective(
                            ms[j].1.spec_key(),
                            ms[i as int].1.spec_key(),
                        );
                    };
                }
                match self.user_clients.take(m.1.as_key()) {
                    Ok(mut peer) => {
                        let ghost peer_pre = peer;
                        let res = peer.transport_state.write_until_complete(bytes);
                        self.user_clients.restore(m.1.as_key(), peer);
                        proof {
                            assert(peer_pre == pre.spec_user_clients().value_spec(
                                ms[i as int].1.spec_key().spec_value(),
                            ));
                            assert(crate::user_client::delivered_client(peer_pre, peer, bytes@));
                        }
                        match res {
                            Ok(_) => {},
                            Err(e) => {
                                all_ok = false;
                                merged.append(e.message().as_str());
                            },
                        }
                    },
                    Err(e) => {
                        all_ok = false;
                        merged.append(e.message().as_str());
                    },
                }
            }
            i = i + 1;
        }
        proof {
            pre.spec_topics().lemma_contained_below(tkey, pre.spec_generator().spec_next());
        }
        self.topics.restore(sender_topic.as_key(), topic);
        proof {
            let c = pre.spec_user_clients().value_spec(ckey);
            let tms = pre.spec_topics().value_spec(c.topic.spec_key().spec_value()).members();
            assert(tms == ms);
            assert forall|j: int| 0 <= j < tms.len()
                implies pre.spec_users().contains_spec(
                (#[trigger] tms[j]).0.spec_key().spec_value(),
            ) by {
                assert(tms[j] == ms[j]);
            };
            assert(pre.broadcast_resolves(client));
        }
        proof {
            let next = self.generator.spec_next();
            assert forall|k: u64| #[trigger] self.topics.contains_spec(k)
                implies self.topics.value_spec(k).wf() && self.topics.value_spec(
                k,
            ).clients_below(next) by {
                assert(pre.spec_topics().contains_spec(k));
                assert(self.topics.value_spec(k) == pre.spec_topics().value_spec(k));
            };
        }
        if all_ok {
            Ok(bytes.len())
        } else {
            Err(UserClientHandleError::from_message(merged))
        }
    }

    /// Read from `client`'s own coordinator: one complete read of `want`
    /// bytes, observing only what peers have broadcast to this client.
    pub fn client_read(&mut self, client: UserClientHandle, want: usize) -> (r: Result<
        Vec<u8>,
        UserClientHandleError,
    >)
        requires
            old(self).wf(),
        ensures
            final(self).wf(),
            final(self).spec_generator() == old(self).spec_generator(),
            final(self).spec_user_kinds() == old(self).spec_user_kinds(),
            final(self).spec_users() == old(self).spec_users(),
            final(self).spec_topics() == old(self).spec_topics(),
            forall|q: u64|
                #[trigger] final(self).spec_user_clients().contains_spec(q) <==> old(
                    self,
                ).spec_user_clients().contains_spec(q),
            forall|q: u64|
                q != client.spec_key().spec_value() && old(self).spec_user_clients().contains_spec(
                    q,
                ) ==> #[trigger] final(self).spec_user_clients().value_spec(q) == old(
                    self,
                ).spec_user_clients().value_spec(q),
            !old(self).spec_user_clients().contains_spec(client.spec_key().spec_value())
                ==> r.is_err() && final(self).spec_user_clients() == old(self).spec_user_clients(),
            old(self).spec_user_clients().contains_spec(client.spec_key().spec_value()) ==> ({
                let c = old(self).spec_user_clients().value_spec(client.spec_key().spec_value());
                &&& (r.is_ok() <==> crate::user_client::read_would_converge(c, want as int))
                &&& crate::user_client::drained_client(
                    c,
                    final(self).spec_user_clients().value_spec(client.spec_key().spec_value()),
                    want as int,
                )
                &&& (r.is_ok() ==> r.unwrap()@ == c.transport_state.stream().take(want as int))
            }),
    {
        let mut c = match self.user_clients.take(client.as_key()) {
            Ok(c) => c,
            Err(e) => {
                return Err(UserClientHandleError::from_intern_error(e));
            },
        };
        let res = c.transport_state.read_until_complete(want);
        proof {
            old(self).spec_user_clients().lemma_contained_below(
                client.spec_key().spec_value(),
                old(self).spec_generator().spec_next(),
            );
        }
        self.user_clients.restore(client.as_key(), c);
        match res {
            Ok(bytes) => Ok(bytes),
            Err(e) => Err(UserClientHandleError::from_message(e.message())),
        }
    }

    /// The broadcast flush barrier: report success exactly when every byte
    /// this client has broadcast has been drained by its recipients — each
    /// matching peer's coordinator holds nothing in flight. Changes nothing,
    /// whatever it reports.
    pub fn client_flush(&mut self, client: UserClientHandle) -> (r: Result<
        (),
        UserClientHandleError,
    >)
        requires
            old(self).wf(),
        ensures
            final(self).wf(),
            final(self).spec_generator() == old(self).spec_generator(),
            final(self).spec_user_kinds() == old(self).spec_user_kinds(),
            final(self).spec_users() == old(self).spec_users(),
            forall|q: u64|
                (#[trigger] final(self).spec_topics().contains_spec(q) <==> old(
                    self,
                ).spec_topics().contains_spec(q)) && (old(self).spec_topics().contains_spec(q)
                    ==> final(self).spec_topics().value_spec(q) == old(
                    self,
                ).spec_topics().value_spec(q)),
            forall|q: u64|
                (#[trigger] final(self).spec_user_clients().contains_spec(q) <==> old(
                    self,
                ).spec_user_clients().contains_spec(q)) && (old(
                    self,
                ).spec_user_clients().contains_spec(q) ==> final(self).spec_user_clients().value_spec(q) == old(self).spec_user_clients().value_spec(q)),
            r.is_ok() <==> (old(self).broadcast_resolves(client) && ({
                let c = old(self).spec_user_clients().value_spec(client.spec_key().spec_value());
                let ms = old(self).spec_topics().value_spec(
                    c.topic.spec_key().spec_value(),
                ).members();
                forall|i: int|
                    0 <= i < ms.len() && old(self).member_matches(
                        c.user,
                        c.target_kind,
                        #[trigger] ms[i],
                    ) ==> old(self).spec_user_clients().contains_spec(
                        ms[i].1.spec_key().spec_value(),
                    ) && old(self).spec_user_clients().value_spec(
                        ms[i].1.spec_key().spec_value(),
                    ).transport_state.stream().len() == 0
            })),
    {
        let ghost pre = *old(self);
        let (sender_user, sender_topic, sender_target) = match self.user_clients.get(
            client.as_key(),
        ) {
            Ok(c) => (c.user, c.topic, c.target_kind),
            Err(e) => {
                return Err(UserClientHandleError::from_intern_error(e));
            },
        };
        let ghost tkey = sender_topic.spec_key().spec_value();
        let ghost ckey = client.spec_key().spec_value();
        // first pass: resolve every member's user, as the broadcast would
        {
            let topic_ref = match self.topics.get(sender_topic.as_key()) {
                Ok(topic_ref) => topic_ref,
                Err(e) => {
                    return Err(UserClientHandleError::from_intern_error(e));
                },
            };
            let ghost ms = topic_ref.members();
            let n = topic_ref.user_client_mapping.len();
            let mut i: usize = 0;
            while i < n
                invariant
                    *self == *old(self),
                    pre == *old(self),
                    pre.wf(),
                    n == ms.len(),
                    0 <= i <= n,
                    ms == topic_ref.members(),
                    *topic_ref == pre.spec_topics().value_spec(tkey),
                    pre.spec_topics().contains_spec(tkey),
                    tkey == sender_topic.spec_key().spec_value(),
                    ckey == client.spec_key().spec_value(),
                    pre.spec_user_clients().contains_spec(ckey),
                    sender_topic == pre.spec_user_clients().value_spec(ckey).topic,
                    forall|j: int|
                        0 <= j < i ==> pre.spec_users().contains_spec(
                            (#[trigger] ms[j]).0.spec_key().spec_value(),
                        ),
                decreases n - i,
            {
                if !self.users.contains_key(topic_ref.user_client_mapping[i].0.as_key()) {
                    proof {
                        let c = pre.spec_user_clients().value_spec(ckey);
                        assert(pre.spec_topics().value_spec(
                            c.topic.spec_key().spec_value(),
                        ).members()[i as int] == ms[i as int]);
                        assert(!pre.spec_users().contains_spec(
                            ms[i as int].0.spec_key().spec_value(),
                        ));
                        assert(!pre.broadcast_resolves(client));
                    }
                    return Err(
                        UserClientHandleError::from_intern_error(InternError::not_registered()),
                    );
                }
                i = i + 1;
            }
        }
        let topic = match self.topics.take(sender_topic.as_key()) {
            Ok(topic) => topic,
            Err(e) => {
                return Err(UserClientHandleError::from_intern_error(e));
            },
        };
        let ghost ms = topic.members();
        let n = topic.user_client_mapping.len();
        // second pass: every matching peer's rendezvous, failures collected
        let mut all_ok: bool = true;
        let mut i: usize = 0;
        while i < n
            invariant
                pre == *old(self),
                pre.wf(),
                0 <= i <= n,
                n == ms.len(),
                ms == topic.members(),
                topic == pre.spec_topics().value_spec(tkey),
                pre.spec_topics().contains_spec(tkey),
                ckey == client.spec_key().spec_value(),
                tkey == sender_topic.spec_key().spec_value(),
                pre.spec_user_clients().contains_spec(ckey),
                sender_user == pre.spec_user_clients().value_spec(ckey).user,
                sender_target == pre.spec_user_clients().value_spec(ckey).target_kind,
                sender_topic == pre.spec_user_clients().value_spec(ckey).topic,
                forall|j: int|
                    0 <= j < ms.len() ==> pre.spec_users().contains_spec(
                        (#[trigger] ms[j]).0.spec_key().spec_value(),
                    ),
                self.generator == pre.spec_generator(),
                self.users == pre.spec_users(),
                self.user_kinds == pre.spec_user_kinds(),
                !self.topics.contains_spec(tkey),
                self.topics.wf(),
                self.topics.keys_below(self.generator.spec_next()),
                forall|q: u64|
                    q != tkey ==> (#[trigger] self.topics.contains_spec(q)
                        <==> pre.spec_topics().contains_spec(q)),
                forall|q: u64|
                    q != tkey && pre.spec_topics().contains_spec(q)
                        ==> #[trigger] self.topics.value_spec(q) == pre.spec_topics().value_spec(q),
                self.user_clients.wf(),
                self.user_clients.keys_below(self.generator.spec_next()),
                forall|q: u64|
                    (#[trigger] self.user_clients.contains_spec(q)
                        <==> pre.spec_user_clients().contains_spec(q)) && (
                    pre.spec_user_clients().contains_spec(q) ==> self.user_clients.value_spec(q)
                        == pre.spec_user_clients().value_spec(q)),
                all_ok <==> (forall|j: int|
                    0 <= j < i && pre.member_matches(sender_user, sender_target, #[trigger] ms[j])
                        ==> pre.spec_user_clients().contains_spec(ms[j].1.spec_key().spec_value())
                        && pre.spec_user_clients().value_spec(
                        ms[j].1.spec_key().spec_value(),
                    ).transport_state.stream().len() == 0),
            decreases n - i,
        {
            let m = topic.user_client_mapping[i];
            let kind = match self.users.get(m.0.as_key()) {
                Ok(u) => u.kind,
                Err(e) => {
                    // the first pass resolved every member's user
                    proof {
                        assert(false);
                    }
                    self.topics.restore(sender_topic.as_key(), topic);
                    return Err(UserClientHandleError::from_intern_error(e));
                },
            };
            let matched = m.0 != sender_user && (sender_target.is_none() || kind
                == sender_target.unwrap());
            proof {
                assert(matched == pre.member_matches(sender_user, sender_target, ms[i as int]));
            }
            if matched {
                match self.user_clients.take(m.1.as_key()) {
                    Ok(mut peer) => {
                        let ghost peer_pre = peer;
                        let res = peer.transport_state.flush();
                        proof {
                            assert(peer == peer_pre);
                            assert(peer_pre == pre.spec_user_clients().value_spec(
                                ms[i as int].1.spec_key().spec_value(),
                            ));
                            assert(res.is_ok() <==> peer_pre.transport_state.stream().len() == 0);
                        }
                        self.user_clients.restore(m.1.as_key(), peer);
                        if res.is_err() {
                            all_ok = false;
                        }
                    },
                    Err(_) => {
                        all_ok = false;
                    },
                }
            }
            proof {
                assert forall|q: u64|
                    (#[trigger] self.user_clients.contains_spec(q)
                        <==> pre.spec_user_clients().contains_spec(q)) && (
                    pre.spec_user_clients().contains_spec(q) ==> self.user_clients.value_spec(q)
                        == pre.spec_user_clients().value_spec(q)) by {
                    if q == ms[i as int].1.spec_key().spec_value() {
                    } else {
                    }
                };
            }
            i = i + 1;
        }
        proof {
            pre.spec_topics().lemma_contained_below(tkey, pre.spec_generator().spec_next());
        }
        self.topics.restore(sender_topic.as_key(), topic);
        proof {
            let next = self.generator.spec_next();
            assert forall|k: u64| #[trigger] self.topics.contains_spec(k)
                implies self.topics.value_spec(k).wf() && self.topics.value_spec(
                k,
            ).clients_below(next) by {
                assert(pre.spec_topics().contains_spec(k));
                assert(self.topics.value_spec(k) == pre.spec_topics().value_spec(k));
            };
            let c = pre.spec_user_clients().value_spec(ckey);
            let tms = pre.spec_topics().value_spec(c.topic.spec_key().spec_value()).members();
            assert(tms == ms);
            assert forall|j: int| 0 <= j < tms.len()
                implies pre.spec_users().contains_spec(
                (#[trigger] tms[j]).0.spec_key().spec_value(),
            ) by {
                assert(tms[j] == ms[j]);
            };
            assert(pre.broadcast_resolves(client));
        }
        if all_ok {
            Ok(())
        } else {
            Err(UserClientHandleError::from_message(String::from_str(
                "a matching peer still holds undrained bytes or is dangling",
            )))
        }
    }
}

/// The boundary-facing broadcast: write the chunk's payload from the client
/// under `handle` to every matching peer, reporting the byte count or a
/// tagged failure — never a crash.
pub fn send_topic_messages(hub: &mut Hub, handle: InternKey, chunk: &ThriftChunk) -> (r:
    ThriftWriteResult)
    requires
        old(hub).wf(),
    ensures
        final(hub).wf(),
        ({
            let client = UserClientHandle::spec_from_key(handle);
            &&& (r is Written <==> (old(hub).broadcast_resolves(client) && ({
                let c = old(hub).spec_user_clients().value_spec(handle.spec_value());
                let ms = old(hub).spec_topics().value_spec(
                    c.topic.spec_key().spec_value(),
                ).members();
                forall|i: int|
                    0 <= i < ms.len() && old(hub).member_matches(
                        c.user,
                        c.target_kind,
                        #[trigger] ms[i],
                    ) ==> old(hub).spec_user_clients().contains_spec(
                        ms[i].1.spec_key().spec_value(),
                    ) && crate::user_client::write_would_converge(
                        old(hub).spec_user_clients().value_spec(ms[i].1.spec_key().spec_value()),
                        chunk.bytes@,
                    )
            })))
            &&& (r matches ThriftWriteResult::Written(n) ==> n == chunk.bytes@.len())
            &&& (old(hub).broadcast_resolves(client) ==> ({
                let c = old(hub).spec_user_clients().value_spec(handle.spec_value());
                let ms = old(hub).spec_topics().value_spec(
                    c.topic.spec_key().spec_value(),
                ).members();
                forall|i: int|
                    0 <= i < ms.len() && old(hub).member_matches(
                        c.user,
                        c.target_kind,
                        #[trigger] ms[i],
                    ) && old(hub).spec_user_clients().contains_spec(
                        ms[i].1.spec_key().spec_value(),
                    ) ==> crate::user_client::delivered_client(
                        old(hub).spec_user_clients().value_spec(ms[i].1.spec_key().spec_value()),
                        final(hub).spec_user_clients().value_spec(ms[i].1.spec_key().spec_value()),
                        chunk.bytes@,
                    )
            }))
        }),
        forall|q: u64|
            #[trigger] final(hub).spec_user_clients().contains_spec(q) <==> old(hub).spec_user_clients().contains_spec(q),
        forall|q: u64|
            (#[trigger] final(hub).spec_topics().contains_spec(q) <==> old(hub).spec_topics().contains_spec(q)) && (old(hub).spec_topics().contains_spec(q) ==> final(hub).spec_topics().value_spec(q) == old(hub).spec_topics().value_spec(q)),
        final(hub).spec_users() == old(hub).spec_users(),
        final(hub).spec_user_kinds() == old(hub).spec_user_kinds(),
{
    let client = UserClientHandle::from_key(handle);
    proof {
        crate::user_client::lemma_client_handle_from_key(handle);
        crate::user_client::lemma_client_handle_injective(
            client,
            UserClientHandle::spec_from_key(handle),
        );
    }
    match hub.client_write(client, chunk.bytes.as_slice()) {
        Ok(n) => ThriftWriteResult::Written(n as u64),
        Err(_) => ThriftWriteResult::Failed,
    }
}

/// The boundary-facing receive: drain from the client's own coordinator
/// exactly as many bytes as the chunk's payload length asks for, handing
/// back the filled chunk, or a tagged failure — never a crash.
pub fn receive_topic_messages(hub: &mut Hub, handle: InternKey, chunk: ThriftChunk) -> (r: (
    ThriftChunk,
    ThriftReadResult,
))
    requires
        old(hub).wf(),
    ensures
        final(hub).wf(),
        final(hub).spec_generator() == old(hub).spec_generator(),
        final(hub).spec_user_kinds() == old(hub).spec_user_kinds(),
        final(hub).spec_users() == old(hub).spec_users(),
        final(hub).spec_topics() == old(hub).spec_topics(),
        forall|q: u64|
            #[trigger] final(hub).spec_user_clients().contains_spec(q) <==> old(hub).spec_user_clients().contains_spec(q),
        forall|q: u64|
            q != handle.spec_value() && old(hub).spec_user_clients().contains_spec(q)
                ==> #[trigger] final(hub).spec_user_clients().value_spec(q) == old(hub).spec_user_clients().value_spec(q),
        ({
            let contained = old(hub).spec_user_clients().contains_spec(handle.spec_value());
            let c = old(hub).spec_user_clients().value_spec(handle.spec_value());
            &&& (r.1 is Read <==> (contained && crate::user_client::read_would_converge(
                c,
                chunk.bytes@.len() as int,
            )))
            &&& (r.1 is Read ==> r.0.bytes@ == c.transport_state.stream().take(
                chunk.bytes@.len() as int,
            ) && r.0.capacity == chunk.capacity)
            &&& (contained ==> crate::user_client::drained_client(
                c,
                final(hub).spec_user_clients().value_spec(handle.spec_value()),
                chunk.bytes@.len() as int,
            ))
            &&& (r.1 is Failed ==> r.0 == chunk)
        }),
{
    let want = chunk.bytes.len();
    let client = UserClientHandle::from_key(handle);
    proof {
        crate::user_client::lemma_client_handle_from_key(handle);
    }
    match hub.client_read(client, want) {
        Ok(bytes) => {
            let filled = ThriftChunk { bytes, capacity: chunk.capacity };
            let n = filled.bytes.len();
            (filled, ThriftReadResult::Read(n as u64))
        },
        Err(_) => (chunk, ThriftReadResult::Failed),
    }
}

} // verus!