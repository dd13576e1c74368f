//! Operation parameters and the protocol's error taxonomy.
//!
//! A participant's user id, a logical key name, and an entry payload are all
//! plain byte strings; the wire encoding of the parameter records is a
//! boundary concern and not part of this core.

use vstd::prelude::*;

verus! {

/// The failures the protocol distinguishes.
///
/// Quota and permission failures abort the triggering operation with no
/// partial write; `NotFound` and `AlreadyExists` are the external store's own
/// verdicts, propagated unmodified.
#[derive(Clone, Copy, Debug, PartialEq, Eq, Structural)]
pub enum ProtoError {
    /// A quota charge would drive the owner's counter negative.
    InsufficientQuota,
    /// A private entry was read by a requester who does not hold it.
    PermissionDenied,
    /// Read, update, or delete of a key that is not in the store.
    NotFound,
    /// Create over a key that is already in the store.
    AlreadyExists,
}

/// The error an operation reports, `None` on success: the shape in which the
/// transition specifications state their verdicts.
pub open spec fn verdict(r: Result<(), ProtoError>) -> Option<ProtoError> {
    match r {
        Ok(_) => None,
        Err(e) => Some(e),
    }
}

/// Parameters of a Create operation.
pub struct CreateParams {
    /// Logical name of the entry, scoped by owner and visibility.
    pub remote_key_name: Vec<u8>,
    /// The byte-blob to store.
    pub payload: Vec<u8>,
    /// `true` for a public entry, `false` for a private one.
    pub is_public: bool,
}

/// Parameters of a Read operation.
pub struct ReadParams {
    /// Logical name of the entry to read.
    pub remote_key_name: Vec<u8>,
    /// Owner of the entry; empty means the requester itself.
    pub holder_id: Vec<u8>,
    /// Visibility under which the entry is addressed.
    pub is_public: bool,
}

/// Parameters of an Update operation.
pub struct UpdateParams {
    /// Logical name of the entry to overwrite.
    pub remote_key_name: Vec<u8>,
    /// The new byte-blob.
    pub payload: Vec<u8>,
    /// Visibility under which the entry is addressed.
    pub is_public: bool,
}

/// Parameters of a Delete operation.
pub struct DeleteParams {
    /// Logical name of the entry to remove.
    pub remote_key_name: Vec<u8>,
    /// Visibility under which the entry is addressed.
    pub is_public: bool,
}

} // verus!
