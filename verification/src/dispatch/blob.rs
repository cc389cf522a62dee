//! Loading blobs for the application.
use crate::data::BlobHash;
use vstd::prelude::*;

verus! {

/// How far a blob has been loaded.
#[derive(Debug)]
pub enum BlobDataState {
    Empty,
    Loading,
    Loaded(BlobHash, Vec<u8>),
    Failed(String),
}

/// Someone who waits for a blob.
pub trait BlobDataResponder: Send + Sync {
    /// The blob has been loaded further.
    fn update(&self, state: BlobDataState);

    /// The blob that is waited for.
    fn hash(&self) -> Option<BlobHash>;
}

/// Whether there is anything to load for a responder that waits for `hash`.
pub fn hydrate(hash: &Option<BlobHash>) -> (wanted: bool)
    ensures
        wanted == (hash is Some),
{
    hash.is_some()
}

/// The first state that a responder hears, before its blob is read: none where it
/// waits for no blob.
pub fn hydrate_start(hash: &Option<BlobHash>) -> (state: Option<BlobDataState>)
    ensures
        state == (if hash is Some {
            Some(BlobDataState::Loading)
        } else {
            None
        }),
{
    match hash {
        Some(_) => Some(BlobDataState::Loading),
        None => None,
    }
}

/// The state that a responder hears once its blob was read, or could not be read.
pub fn hydrate_end(hash: BlobHash, read: Result<Vec<u8>, String>) -> (state: BlobDataState)
    ensures
        state == (match read {
            Ok(bytes) => BlobDataState::Loaded(hash, bytes),
            Err(reason) => BlobDataState::Failed(reason),
        }),
        tells_of_blob(state, hash, read),
{
    match read {
        Ok(bytes) => BlobDataState::Loaded(hash, bytes),
        Err(reason) => BlobDataState::Failed(reason),
    }
}

/// Whether a state tells what came of reading a blob.
pub open spec fn tells_of_blob(
    state: BlobDataState,
    hash: BlobHash,
    read: Result<Vec<u8>, String>,
) -> bool {
    match state {
        BlobDataState::Loaded(of, bytes) => of == hash && read == Ok::<Vec<u8>, String>(bytes),
        BlobDataState::Failed(reason) => read == Err::<Vec<u8>, String>(reason),
        _ => false,
    }
}

/// A blob that was read is loaded with all its bytes, also where it has none, and under the
/// hash that was asked for; only one that could not be read has failed, with the reason.
pub proof fn blobs_that_were_read_are_loaded(
    state: BlobDataState,
    hash: BlobHash,
    read: Result<Vec<u8>, String>,
)
    requires
        tells_of_blob(state, hash, read),
    ensures
        read matches Ok(bytes) ==> state == BlobDataState::Loaded(hash, bytes),
        read matches Err(reason) ==> state == BlobDataState::Failed(reason),
{
}

} // verus!
