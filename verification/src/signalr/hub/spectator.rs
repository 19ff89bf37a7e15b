//! The spectator hub, which speaks MessagePack.

use crate::signalr::hub::{hub_step, step, HubEvent, HubKind, HubState, HubStep};
use vstd::prelude::*;

verus! {

/// What the spectator hub makes of an event in the state it is in.
pub fn handle_spectator_hub(state: HubState, event: HubEvent) -> (r: HubStep)
    ensures
        r@ == hub_step(HubKind::Spectator, state, event@),
{
    step(HubKind::Spectator, state, event)
}

} // verus!
