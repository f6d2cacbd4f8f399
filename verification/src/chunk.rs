use crate::types::{ChunkId, SeriesId};
use vstd::prelude::*;

verus! {

/// Metadata of a chunk: which chunk, of which series, over which time span.
#[derive(Debug, Clone, Copy, PartialEq, Eq, Structural)]
pub struct ChunkMeta {
    pub chunk_id: ChunkId,
    pub series_id: SeriesId,
    pub start_time: u64,
    pub end_time: u64,
}

/// The points of a chunk: timestamps and values side by side, each value held
/// by its bit pattern (`f64::to_bits`).
#[derive(Debug, Clone)]
pub struct ChunkData {
    pub timestamps: Vec<u64>,
    pub value_bits: Vec<u64>,
}

/// A chunk of one series' points, with its metadata.
#[derive(Debug, Clone)]
pub struct Chunk {
    pub meta: ChunkMeta,
    pub data: ChunkData,
}

/// Counters of a chunk cache.
#[derive(Debug, Clone, Copy, PartialEq, Eq, Structural)]
pub struct CacheMetrics {
    pub hits: u64,
    pub misses: u64,
    pub evictions: u64,
    pub size: u64,
    pub capacity: u64,
}

impl Default for CacheMetrics {
    fn default() -> (m: Self)
        ensures
            m == (CacheMetrics { hits: 0, misses: 0, evictions: 0, size: 0, capacity: 0 }),
    {
        CacheMetrics { hits: 0, misses: 0, evictions: 0, size: 0, capacity: 0 }
    }
}

/// Takes back a chunk that a reader is done with.
pub trait ChunkReleaser: Send + Sync {
    fn release(&self, chunk_id: ChunkId);
}

} // verus!
