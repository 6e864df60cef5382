//! A handle-based registry for externally managed objects, a cooperative
//! hand-off primitive between a writer and a reader sharing one bounded byte
//! buffer, and a topic layer that broadcasts messages between registered
//! clients.

pub mod coroutines;
pub mod entities;
pub mod hub;
pub mod lifecycle;
pub mod record;
pub mod subscriber;
pub mod topic;
pub mod transport;
pub mod user_client;
pub mod interning;
pub mod user;
pub mod user_kind;

pub use interning::InternError;
pub use interning::InternKey;
