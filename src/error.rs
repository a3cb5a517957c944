//! Errors of the catalog store.
use vstd::prelude::*;

verus! {

/// Why a catalog operation was refused.
#[derive(Debug, Clone, Copy, PartialEq, Eq, Structural)]
pub enum StorageError {
    /// A track's audio must hold at least one byte.
    EmptyBytes,
    /// A row with this track id already exists.
    DuplicateId,
    /// The match refers to a track that the catalog does not hold.
    UnknownTrack,
    /// No row has this track id.
    NotFound,
}

} // verus!
