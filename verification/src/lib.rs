//! Verified control logic for a peer-to-peer remote-storage protocol.
//!
//! A requester stores, reads, updates, or deletes named byte-blobs held by a
//! provider. Entries live in a shared key/value store; every operation is
//! accounted against the owner's byte quota, and reads of private entries are
//! permission-checked. The asynchronous substrate (task dispatch, the real
//! networked store, locks) is outside this crate; here the store is modelled
//! by an in-memory map with the same create/read/update/delete contract, and
//! every handler is verified against that model.

pub mod handlers;
pub mod keys;
pub mod laws;
pub mod params;
pub mod quota;
pub mod store;
