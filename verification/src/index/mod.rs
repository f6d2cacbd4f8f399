pub mod cardinality;
pub mod concurrent_map;
pub mod inverted_index;
pub mod metadata_store;
pub mod series_index;

pub use cardinality::CardinalityTracker;
pub use inverted_index::InvertedIndex;
pub use metadata_store::MetadataStore;
pub use series_index::{SeriesIndex, SeriesKey};
