//! The externally managed lifecycle: the tagged results that cross the
//! foreign boundary and the two-phase create/destroy protocol that every
//! domain type follows — construct, intern, register; deregister, collect.

use vstd::prelude::*;

use crate::interning::InternKey;

verus! {

/// The outcome of a create request as reported across the boundary: either
/// the key of the freshly interned object, or a tagged failure. Failures
/// are reported, never propagated as a crash.
#[derive(Debug, Clone, Copy, PartialEq, Eq, Structural)]
pub enum InternedObjectCreationResult {
    /// The object was constructed, interned and registered under this key.
    Created(InternKey),
    /// Construction, interning or registration failed.
    Failed,
}

/// The outcome of a destroy request as reported across the boundary.
#[derive(Debug, Clone, Copy, PartialEq, Eq, Structural)]
pub enum InternedObjectDestructionResult {
    /// The object was deregistered and garbage-collected.
    Succeeded,
    /// Deregistration or collection failed; nothing further was done.
    Failed,
}

/// The two-phase protocol a request type implements so its objects can be
/// created and destroyed across the foreign boundary: pure construction,
/// then cross-reference registration after interning; deregistration before
/// collection. The registry space passes through each hook explicitly.
///
/// The hooks are what [`crate::hub::Hub`]'s create and destroy operations
/// run; those operations carry the exact contracts.
pub trait ExternallyManagedLifecycle: Sized {
    /// What a successful request constructs.
    type Instance;

    /// The typed handle callers receive.
    type HandleType;

    /// How a failed phase is described.
    type ErrorType;

    /// Pure construction of the instance from the request.
    fn make_instance(&self) -> Result<Self::Instance, Self::ErrorType>;
}

} // verus!
