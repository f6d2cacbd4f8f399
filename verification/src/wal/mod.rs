pub mod entry;
pub mod record;
pub mod replay;

pub use entry::{decode_entry, encode_entry};
pub use record::WalRecord;
pub use replay::{encode_batch, WalReplay};
