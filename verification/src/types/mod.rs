pub mod ids;
pub mod order;
pub mod query;
pub mod sample;
pub mod series;
pub mod tags;

pub use query::{Query, TagFilter};
pub use sample::{Sample, SampleReading, SeriesKey};
pub use series::{Series, SeriesView};
pub use tags::Tags;
pub use ids::{ChunkId, SeriesId};
