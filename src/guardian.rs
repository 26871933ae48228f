use vstd::prelude::*;

use crate::response::{body_text, hash_result_view, render_body, BlockHash};

verus! {

/// The hash result of one query. The hash the node reported when the call
/// succeeded; none when the node knows no such block, and none when the call
/// failed in any way (network, protocol, or access to the execution context).
pub open spec fn settled<E>(outcome: Result<Option<BlockHash>, E>) -> Option<BlockHash> {
    match outcome {
        Ok(r) => r,
        Err(_) => None,
    }
}

/// Collapses the outcome of one query into its hash result.
pub fn settle_query<E>(outcome: Result<Option<BlockHash>, E>) -> (r: Option<BlockHash>)
    ensures
        r == settled(outcome),
{
    match outcome {
        Ok(r) => r,
        Err(_) => None,
    }
}

/// The response body for the outcome of one query: `Hash: Some(0x...)` when
/// a hash was resolved, `Hash: None` otherwise.
pub fn answer_body<E>(outcome: Result<Option<BlockHash>, E>) -> (s: String)
    ensures
        s@ == body_text(hash_result_view(settled(outcome))),
{
    let r = settle_query(outcome);
    render_body(&r)
}

} // verus!
