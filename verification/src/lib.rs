//! A handle-based resource bridge between a managed host runtime and a native
//! storage engine.
//!
//! The host holds opaque integer handles to native-owned resources: read-only
//! snapshots and mutable forks of a key/value store. A process-wide registry
//! ([`registry::Registry`]) owns the resources and maps handles to them with a
//! type tag; the storage views ([`views`]) give every handle its read or write
//! semantics; the entry points ([`dispatch`]) compose the two and report
//! misuse as structured errors ([`errors::BridgeError`]); and the boundary
//! sealer ([`boundary`]) turns a captured native fault into a host-visible
//! error paired with a type-correct stub return value.

pub mod boundary;
pub mod dispatch;
pub mod errors;
pub mod registry;
pub mod store;
pub mod views;
