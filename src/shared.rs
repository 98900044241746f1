use std::sync::Arc;

use vstd::prelude::*;

verus! {

/// Relies on `Arc::clone`: a second pointer to the same shared value.
#[verifier::external_body]
pub(crate) fn share_value<V>(a: &Arc<V>) -> (r: Arc<V>)
    ensures
        *r == **a,
{
    Arc::clone(a)
}

} // verus!
