//! Client-side adapter for a remote key-value store with per-key expiration.
//!
//! The adapter turns the remote store into a typed cache with a uniform
//! get/set/remove contract, a key-namespacing convention, a JSON envelope
//! for stored values, and an optional refresh-on-read policy. Every
//! operation is a single atomic batch of store commands; the batch
//! semantics and the codec are specified and verified here, while the
//! network transport stays outside the library.

pub mod codec;
pub mod command;
pub mod store;
pub mod cache;
pub mod async_cache;
pub mod laws;
