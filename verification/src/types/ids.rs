use vstd::prelude::*;

verus! {

/// The id of a chunk: a 128-bit UUID value.
pub type ChunkId = u128;

/// The id of a series in chunk storage: a 128-bit UUID value.
pub type SeriesId = u128;

} // verus!
