use vstd::prelude::*;
use crate::net::operation::Operation;
use crate::simulation::component::Id;

verus! {

/// The unit crossing the inbound channel: one decoded message together with
/// the identifier the registry resolved for its sender.
pub struct Event {
    pub uuid: Id,
    pub op: Operation,
}

/// The batch of inbound events one tick consumes, in arrival order.
pub type EventQueue = Vec<Event>;

} // verus!
