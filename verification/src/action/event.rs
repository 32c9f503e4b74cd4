use vstd::prelude::*;
use crate::net::operation::Point3;
use crate::simulation::component::Id;

verus! {

/// An inbound event of the action pipeline.
#[derive(Clone, Copy, Debug, PartialEq, Eq, Structural)]
pub enum ActionEvent {
    ConnectionEvent(ConnectionEvent),
    MovementEvent(MovementEvent),
}

/// An outbound update of the action pipeline, addressed to one client.
#[derive(Clone, Copy, Debug, PartialEq, Eq, Structural)]
pub struct Update {
    pub uuid: Id,
    pub event: UpdateEvent,
}

/// What an outbound update can carry.
#[derive(Clone, Copy, Debug, PartialEq, Eq, Structural)]
pub enum UpdateEvent {
    MovementEvent(MovementEvent),
}

/// A client appearing or leaving.
#[derive(Clone, Copy, Debug, PartialEq, Eq, Structural)]
pub enum ConnectionEvent {
    ClientConnected(Id),
    ClientDisconnected(Id),
}

/// A client's movement: who moved, and where to.
#[derive(Clone, Copy, Debug, PartialEq, Eq, Structural)]
pub struct MovementEvent {
    pub uuid: Id,
    pub position: Point3,
}

} // verus!
