//! Content-addressable hashing and sharded persistence for file collections.
//!
//! The library walks a set of files, fingerprints each one with a
//! cryptographic content hash, routes every `digest,path` record into one of
//! sixteen shard files keyed by the digest's leading character, and can later
//! collapse such record files down to one representative path per digest.

use vstd::prelude::*;

pub mod cli_helpers;
pub mod dedup;
pub mod digest;
pub mod file_iterator;
pub mod pipeline;
pub mod records;
pub mod shard;
pub mod token;

verus! {

} // verus!
