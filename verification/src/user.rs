//! Users: the identities that participate in topics, each tagged with a
//! kind that broadcast filtering matches on.

use vstd::prelude::*;

use crate::interning::Handle;
use crate::interning::InternError;
use crate::interning::InternKey;
use crate::lifecycle::ExternallyManagedLifecycle;
use crate::user_kind::UserKindHandle;

verus! {

/// An identity, tagged with the kind used as a broadcast filter.
#[derive(Debug, Clone, Copy, PartialEq, Eq, Structural)]
pub struct User {
    /// The kind this user broadcasts as.
    pub kind: UserKindHandle,
}

/// A typed handle into the user table.
#[derive(Debug, Clone, Copy, PartialEq, Eq, Hash, Structural)]
pub struct UserHandle {
    key: InternKey,
}

impl Handle for UserHandle {
    closed spec fn spec_key(self) -> InternKey {
        self.key
    }

    fn as_key(&self) -> (k: InternKey) {
        self.key
    }

    fn from_key(key: InternKey) -> (h: Self) {
        UserHandle { key }
    }
}

/// A user handle is nothing but its key: handles are equal exactly when
/// their keys are.
pub proof fn lemma_user_handle_injective(a: UserHandle, b: UserHandle)
    ensures
        (a == b) <==> (a.spec_key() == b.spec_key()),
{
}

/// The request that creates a user: the key of its kind. The kind key is
/// adopted as given; like every handle it may dangle later.
#[derive(Debug)]
pub struct UserRequest {
    kind: InternKey,
}

impl UserRequest {
    /// The kind key the request carries.
    pub closed spec fn spec_kind(self) -> InternKey {
        self.kind
    }

    /// A request for a user of the given kind.
    pub fn new(kind: InternKey) -> (r: UserRequest)
        ensures
            r.spec_kind() == kind,
    {
        UserRequest { kind }
    }
}

impl ExternallyManagedLifecycle for UserRequest {
    type Instance = User;

    type HandleType = UserHandle;

    type ErrorType = InternError;

    fn make_instance(&self) -> (r: Result<User, InternError>)
        ensures
            r.is_ok(),
            r.unwrap().kind.spec_key() == self.spec_kind(),
    {
        Ok(User { kind: UserKindHandle::from_key(self.kind) })
    }
}

} // verus!
