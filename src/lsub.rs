//! LSUB: subscriptions are not kept, so the answer is always empty.
use vstd::prelude::*;
use crate::response::{one_terminal, reply, responses_view, status_v, Response, StatusKind};

verus! {

/// LSUB: no subscription data, then the tagged OK.
pub fn handle(tag: &String) -> (r: Vec<Response>)
    ensures
        responses_view(r@) == seq![status_v(tag@, StatusKind::Done, "LSUB completed"@)],
        one_terminal(responses_view(r@), tag@),
{
    reply(tag, StatusKind::Done, "LSUB completed")
}

} // verus!
