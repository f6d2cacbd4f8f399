use crate::types::tags::Tags;
use vstd::prelude::*;

verus! {

/// A logged write with its series named by metric and tags; the value is held
/// by its bit pattern (`f64::to_bits`).
#[derive(Debug, Clone)]
pub struct WalRecord {
    pub metric: String,
    pub tags: Tags,
    pub timestamp: i64,
    pub value_bits: u64,
}

} // verus!
