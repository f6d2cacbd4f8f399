use vstd::prelude::*;

verus! {

/// `dashmap::DashMap`, the sharded concurrent hash map that the indexes are
/// kept in. Its contents are opaque here: each index names what its map holds
/// and reaches the map only through its own wrappers of `new`, `get` and `insert`.
#[verifier::external_type_specification]
#[verifier::external_body]
#[verifier::reject_recursive_types(K)]
#[verifier::reject_recursive_types(V)]
#[verifier::reject_recursive_types(S)]
pub struct ExDashMap<K, V, S>(dashmap::DashMap<K, V, S>);

} // verus!
