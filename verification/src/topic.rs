//! Topics: the broadcast domains. A topic owns the mapping from users to
//! their clients — at most one client per user per topic, a hard invariant
//! that violating attempts fail against.

use vstd::prelude::*;

use crate::interning::Handle;
use crate::interning::InternError;
use crate::interning::InternKey;
use crate::lifecycle::ExternallyManagedLifecycle;
use crate::user::UserHandle;
use crate::user_client::UserClientHandle;

verus! {

/// A broadcast domain: its membership map, user to client, insertion order
/// kept.
#[derive(Debug)]
pub struct Topic {
    /// The membership map, one entry per registered user.
    pub user_client_mapping: Vec<(UserHandle, UserClientHandle)>,
}

impl Topic {
    /// The members in insertion order.
    pub open spec fn members(self) -> Seq<(UserHandle, UserClientHandle)> {
        self.user_client_mapping@
    }

    /// Whether `user` has a client registered here.
    pub open spec fn contains_user(self, user: UserHandle) -> bool {
        exists|i: int| 0 <= i < self.members().len() && self.members()[i].0 == user
    }

    /// The position of `user`'s entry, when one exists.
    pub open spec fn index_of_user(self, user: UserHandle) -> int {
        choose|i: int| 0 <= i < self.members().len() && self.members()[i].0 == user
    }

    /// The client registered for `user`, when one exists.
    pub open spec fn client_for(self, user: UserHandle) -> UserClientHandle {
        self.members()[self.index_of_user(user)].1
    }

    /// Whether some member maps to `client`.
    pub open spec fn contains_client(self, client: UserClientHandle) -> bool {
        exists|i: int| 0 <= i < self.members().len() && self.members()[i].1 == client
    }

    /// Whether the user carrying `key` has a client registered here.
    pub open spec fn contains_user_key(self, key: InternKey) -> bool {
        exists|i: int| 0 <= i < self.members().len() && self.members()[i].0.spec_key() == key
    }

    /// The position of the entry whose user carries `key`, when one exists.
    pub open spec fn index_of_user_key(self, key: InternKey) -> int {
        choose|i: int| 0 <= i < self.members().len() && self.members()[i].0.spec_key() == key
    }

    /// The client registered for the user carrying `key`, when one exists.
    pub open spec fn client_for_key(self, key: InternKey) -> UserClientHandle {
        self.members()[self.index_of_user_key(key)].1
    }

    /// Every member's client key lies strictly below `bound`.
    pub open spec fn clients_below(self, bound: u64) -> bool {
        forall|i: int|
            0 <= i < self.members().len() ==> (#[trigger] self.members()[i]).1.spec_key().spec_value()
                < bound
    }

    /// Well-formed: at most one client per user, and distinct clients.
    pub open spec fn wf(self) -> bool {
        &&& forall|i: int, j: int|
            0 <= i < self.members().len() && 0 <= j < self.members().len() && i != j
                ==> (#[trigger] self.members()[i]).0 != (#[trigger] self.members()[j]).0
        &&& forall|i: int, j: int|
            0 <= i < self.members().len() && 0 <= j < self.members().len() && i != j
                ==> (#[trigger] self.members()[i]).1 != (#[trigger] self.members()[j]).1
    }

    /// An empty topic.
    pub fn new() -> (t: Topic)
        ensures
            t.wf(),
            t.members().len() == 0,
            forall|u: UserHandle| !t.contains_user(u),
            forall|c: UserClientHandle| !t.contains_client(c),
            forall|b: u64| t.clients_below(b),
    {
        Topic { user_client_mapping: Vec::new() }
    }

    proof fn lemma_unique_user_index(self, user: UserHandle)
        requires
            self.wf(),
            self.contains_user(user),
        ensures
            0 <= self.index_of_user(user) < self.members().len(),
            self.members()[self.index_of_user(user)].0 == user,
            forall|i: int|
                0 <= i < self.members().len() && self.members()[i].0 == user ==> i
                    == self.index_of_user(user),
    {
        let w = choose|i: int| 0 <= i < self.members().len() && self.members()[i].0 == user;
        assert(self.members()[w].0 == user);
    }

    /// Membership by handle and membership by key agree: a handle is
    /// nothing but its key.
    pub proof fn lemma_user_key_bridge(self, h: UserHandle)
        requires
            self.wf(),
        ensures
            self.contains_user(h) <==> self.contains_user_key(h.spec_key()),
            self.contains_user(h) ==> self.client_for(h) == self.client_for_key(h.spec_key()),
    {
        let k = h.spec_key();
        if self.contains_user(h) {
            self.lemma_unique_user_index(h);
            let i = self.index_of_user(h);
            assert(self.members()[i].0.spec_key() == k);
            assert(self.contains_user_key(k));
            let j = self.index_of_user_key(k);
            assert(0 <= j < self.members().len() && self.members()[j].0.spec_key() == k);
            crate::user::lemma_user_handle_injective(self.members()[j].0, h);
            assert(self.members()[j].0 == h);
            assert(j == i);
        }
        if self.contains_user_key(k) {
            let j = self.index_of_user_key(k);
            assert(0 <= j < self.members().len() && self.members()[j].0.spec_key() == k);
            crate::user::lemma_user_handle_injective(self.members()[j].0, h);
            assert(self.members()[j].0 == h);
            assert(self.contains_user(h));
        }
    }

    /// Whether `user` currently has a client here.
    pub fn has_user(&self, user: UserHandle) -> (b: bool)
        ensures
            b == self.contains_user(user),
    {
        let n = self.user_client_mapping.len();
        let mut i: usize = 0;
        while i < n
            invariant
                n == self.members().len(),
                0 <= i <= n,
                forall|j: int| 0 <= j < i ==> (#[trigger] self.members()[j]).0 != user,
            decreases n - i,
        {
            if self.user_client_mapping[i].0 == user {
                return true;
            }
            i = i + 1;
        }
        false
    }

    /// Register `client` for `user`. Fails, changing nothing, exactly when
    /// the user already has a client in this topic. The caller supplies a
    /// client handle no member maps to yet — freshly interned keys always
    /// satisfy that.
    pub fn register_client(&mut self, user: UserHandle, client: UserClientHandle) -> (r: Result<
        (),
        InternError,
    >)
        requires
            old(self).wf(),
            !old(self).contains_client(client),
        ensures
            final(self).wf(),
            r.is_ok() <==> !old(self).contains_user(user),
            r.is_ok() ==> final(self).members() == old(self).members().push((user, client)),
            r.is_err() ==> *final(self) == *old(self),
            final(self).contains_user(user),
            forall|u: UserHandle|
                u != user ==> (final(self).contains_user(u) <==> old(self).contains_user(u)),
            forall|u: UserHandle|
                u != user && old(self).contains_user(u) ==> final(self).client_for(u) == old(
                    self,
                ).client_for(u),
            r.is_ok() ==> final(self).client_for(user) == client,
            r.is_err() ==> final(self).client_for(user) == old(self).client_for(user),
            forall|b: u64|
                old(self).clients_below(b) && client.spec_key().spec_value() < b ==> final(self).clients_below(b),
    {
        let ghost pre = *self;
        if self.has_user(user) {
            proof {
                pre.lemma_unique_user_index(user);
            }
            return Err(
                InternError::already_registered(),
            );
        }
        self.user_client_mapping.push((user, client));
        proof {
            let post = self.members();
            let old_seq = pre.members();
            let n = old_seq.len() as int;
            assert(post[n] == (user, client));
            assert forall|i: int| 0 <= i < n implies #[trigger] post[i] == old_seq[i] by {}
            assert(self.contains_user(user));
            self.lemma_unique_user_index(user);
            assert(self.index_of_user(user) == n);
            assert forall|u: UserHandle| u != user && #[trigger] self.contains_user(u)
                implies pre.contains_user(u) by {
                let i = choose|i: int| 0 <= i < post.len() && post[i].0 == u;
                assert(post[i] == old_seq[i]);
            };
            assert forall|u: UserHandle| u != user && #[trigger] pre.contains_user(u)
                implies self.contains_user(u) && self.client_for(u) == pre.client_for(u) by {
                pre.lemma_unique_user_index(u);
                let i = pre.index_of_user(u);
                assert(post[i] == old_seq[i]);
                assert(self.contains_user(u));
                self.lemma_unique_user_index(u);
                assert(self.index_of_user(u) == i);
            };
            assert forall|b: u64|
                pre.clients_below(b) && client.spec_key().spec_value() < b
                implies self.clients_below(b) by {
                assert forall|j: int| 0 <= j < post.len()
                    implies (#[trigger] post[j]).1.spec_key().spec_value() < b by {
                    if j < n {
                        assert(post[j] == old_seq[j]);
                    }
                };
            };
        }
        Ok(())
    }

    /// Remove `user`'s registration. Fails, changing nothing, exactly when
    /// no such entry exists.
    pub fn deregister_user(&mut self, user: UserHandle) -> (r: Result<(), InternError>)
        requires
            old(self).wf(),
        ensures
            final(self).wf(),
            r.is_ok() <==> old(self).contains_user(user),
            !final(self).contains_user(user),
            forall|u: UserHandle|
                u != user ==> (final(self).contains_user(u) <==> old(self).contains_user(u)),
            forall|u: UserHandle|
                u != user && old(self).contains_user(u) ==> final(self).client_for(u) == old(
                    self,
                ).client_for(u),
            r.is_ok() ==> final(self).members().len() + 1 == old(self).members().len(),
            r.is_err() ==> *final(self) == *old(self),
            forall|b: u64| old(self).clients_below(b) ==> final(self).clients_below(b),
            forall|c: UserClientHandle|
                final(self).contains_client(c) ==> old(self).contains_client(c),
    {
        let ghost pre = *self;
        let n = self.user_client_mapping.len();
        let mut i: usize = 0;
        while i < n
            invariant
                *self == *old(self),
                pre == *old(self),
                self.wf(),
                n == self.members().len(),
                0 <= i <= n,
                forall|j: int| 0 <= j < i ==> (#[trigger] self.members()[j]).0 != user,
            decreases n - i,
        {
            if self.user_client_mapping[i].0 == user {
                proof {
                    pre.lemma_unique_user_index(user);
                    assert(pre.index_of_user(user) == i);
                }
                self.user_client_mapping.remove(i);
                proof {
                    self.lemma_remove_shape(pre, i as int, user);
                }
                return Ok(());
            }
            i = i + 1;
        }
        Err(InternError::not_registered())
    }

    proof fn lemma_remove_shape(self, pre: Topic, i: int, user: UserHandle)
        requires
            pre.wf(),
            0 <= i < pre.members().len(),
            pre.members()[i].0 == user,
            self.members() == pre.members().remove(i),
        ensures
            self.wf(),
            !self.contains_user(user),
            forall|u: UserHandle| u != user ==> (self.contains_user(u) <==> pre.contains_user(u)),
            forall|u: UserHandle|
                u != user && pre.contains_user(u) ==> self.client_for(u) == pre.client_for(u),
            forall|b: u64| pre.clients_below(b) ==> self.clients_below(b),
            forall|c: UserClientHandle| self.contains_client(c) ==> pre.contains_client(c),
    {
        let post = self.members();
        let old_seq = pre.members();
        assert forall|a: int, b: int|
            0 <= a < post.len() && 0 <= b < post.len() && a != b
            implies (#[trigger] post[a]).0 != (#[trigger] post[b]).0 && post[a].1 != post[b].1 by {
            let a0 = if a < i { a } else { a + 1 };
            let b0 = if b < i { b } else { b + 1 };
            assert(post[a] == old_seq[a0]);
            assert(post[b] == old_seq[b0]);
        };
        assert forall|j: int| 0 <= j < post.len() implies (#[trigger] post[j]).0 != user by {
            let j0 = if j < i { j } else { j + 1 };
            assert(post[j] == old_seq[j0]);
            assert(j0 != i);
        };
        assert forall|u: UserHandle| u != user && #[trigger] self.contains_user(u)
            implies pre.contains_user(u) by {
            let j = choose|j: int| 0 <= j < post.len() && post[j].0 == u;
            let j0 = if j < i { j } else { j + 1 };
            assert(post[j] == old_seq[j0]);
        };
        assert forall|u: UserHandle| u != user && #[trigger] pre.contains_user(u)
            implies self.contains_user(u) && self.client_for(u) == pre.client_for(u) by {
            pre.lemma_unique_user_index(u);
            let j0 = pre.index_of_user(u);
            let j = if j0 < i { j0 } else { j0 - 1 };
            assert(post[j] == old_seq[j0]);
            assert(self.contains_user(u));
            self.lemma_unique_user_index(u);
            assert(self.index_of_user(u) == j);
        };
        assert forall|b: u64| pre.clients_below(b) implies self.clients_below(b) by {
            assert forall|j: int| 0 <= j < post.len()
                implies (#[trigger] post[j]).1.spec_key().spec_value() < b by {
                let j0 = if j < i { j } else { j + 1 };
                assert(post[j] == old_seq[j0]);
            };
        };
        assert forall|c: UserClientHandle| #[trigger] self.contains_client(c)
            implies pre.contains_client(c) by {
            let j = choose|j: int| 0 <= j < post.len() && post[j].1 == c;
            let j0 = if j < i { j } else { j + 1 };
            assert(post[j] == old_seq[j0]);
        };
    }
}

/// A typed handle into the topic table.
#[derive(Debug, Clone, Copy, PartialEq, Eq, Hash, Structural)]
pub struct TopicHandle {
    key: InternKey,
}

impl Handle for TopicHandle {
    closed spec fn spec_key(self) -> InternKey {
        self.key
    }

    fn as_key(&self) -> (k: InternKey) {
        self.key
    }

    fn from_key(key: InternKey) -> (h: Self) {
        TopicHandle { key }
    }
}

/// The (empty) request that creates a topic.
#[derive(Debug)]
pub struct TopicRequest;

impl ExternallyManagedLifecycle for TopicRequest {
    type Instance = Topic;

    type HandleType = TopicHandle;

    type ErrorType = InternError;

    fn make_instance(&self) -> (r: Result<Topic, InternError>)
        ensures
            r.is_ok(),
            r.unwrap().wf(),
            r.unwrap().members().len() == 0,
            forall|u: UserHandle| !r.unwrap().contains_user(u),
            forall|b: u64| r.unwrap().clients_below(b),
    {
        Ok(Topic::new())
    }
}

} // verus!
