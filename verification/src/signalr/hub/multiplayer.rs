//! The multiplayer hub, which speaks MessagePack.

use crate::signalr::hub::{hub_step, step, HubEvent, HubKind, HubState, HubStep};
use vstd::prelude::*;

verus! {

/// What the multiplayer hub makes of an event in the state it is in.
pub fn handle_multiplayer_hub(state: HubState, event: HubEvent) -> (r: HubStep)
    ensures
        r@ == hub_step(HubKind::Multiplayer, state, event@),
{
    step(HubKind::Multiplayer, state, event)
}

} // verus!
