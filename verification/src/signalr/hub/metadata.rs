//! The metadata hub, which speaks JSON.

use crate::signalr::hub::{hub_step, step, HubEvent, HubKind, HubState, HubStep};
use vstd::prelude::*;

verus! {

/// What the metadata hub makes of an event in the state it is in.
pub fn handle_metadata_hub(state: HubState, event: HubEvent) -> (r: HubStep)
    ensures
        r@ == hub_step(HubKind::Metadata, state, event@),
{
    step(HubKind::Metadata, state, event)
}

} // verus!
