//! User kinds: the opaque tags that broadcast filtering matches on.

use vstd::prelude::*;

use crate::interning::Handle;
use crate::interning::InternError;
use crate::interning::InternKey;
use crate::lifecycle::ExternallyManagedLifecycle;

verus! {

/// A kind is nothing but an interned identity; matching compares handles.
#[derive(Debug)]
pub struct UserKind;

/// A typed handle into the kind table.
#[derive(Debug, Clone, Copy, PartialEq, Eq, Hash, Structural)]
pub struct UserKindHandle {
    key: InternKey,
}

impl Handle for UserKindHandle {
    closed spec fn spec_key(self) -> InternKey {
        self.key
    }

    fn as_key(&self) -> (k: InternKey) {
        self.key
    }

    fn from_key(key: InternKey) -> (h: Self) {
        UserKindHandle { key }
    }
}

/// The (empty) request that creates a kind.
#[derive(Debug)]
pub struct UserKindRequest;

impl ExternallyManagedLifecycle for UserKindRequest {
    type Instance = UserKind;

    type HandleType = UserKindHandle;

    type ErrorType = InternError;

    fn make_instance(&self) -> (r: Result<UserKind, InternError>)
        ensures
            r.is_ok(),
    {
        Ok(UserKind)
    }
}

} // verus!
