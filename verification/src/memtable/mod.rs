pub mod immutable;
pub mod manager;
pub mod table;

pub use immutable::ImmutableMemtable;
pub use manager::MemtableManager;
pub use table::Memtable;
