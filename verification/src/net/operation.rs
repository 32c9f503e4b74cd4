use vstd::prelude::*;
use crate::simulation::component::Id;

verus! {

/// A point in world space. Each coordinate is carried as the opaque 64-bit
/// encoding the clients chose for their number format; this layer copies the
/// encodings around and never does arithmetic on them.
#[derive(Clone, Copy, Debug, PartialEq, Eq, Structural)]
pub struct Point3 {
    pub x: u64,
    pub y: u64,
    pub z: u64,
}

/// One component of an entity as it appears inside a world snapshot.
#[derive(Clone, Copy, Debug, PartialEq, Eq, Structural)]
pub enum EntityComponent {
    Position(Point3),
    Health(u64),
}

/// The per-entity slice of a world snapshot: the entity's identifier and the
/// components the recipient is shown.
#[derive(Debug)]
pub struct EntityUpdate {
    pub uuid: Id,
    pub data: Vec<EntityComponent>,
}

/// The mathematical shape of an [`EntityUpdate`].
pub struct EntityUpdateV {
    pub uuid: Id,
    pub data: Seq<EntityComponent>,
}

impl View for EntityUpdate {
    type V = EntityUpdateV;

    open spec fn view(&self) -> EntityUpdateV {
        EntityUpdateV { uuid: self.uuid, data: self.data@ }
    }
}

impl DeepView for EntityUpdate {
    type V = EntityUpdateV;

    open spec fn deep_view(&self) -> EntityUpdateV {
        self@
    }
}

/// Every message of the protocol. `Cl`-prefixed operations travel from a
/// client to the server, `Sv`-prefixed ones from the server to a client.
#[derive(Debug)]
pub enum Operation {
    /// A client asks to join: the handshake datagram.
    ClConnectMessage,
    /// The server acknowledges a join and tells the client its identifier.
    SvConnectResponse { uuid: Id },
    /// A client announces that it is leaving.
    DisconnectMessage,
    /// A heartbeat with no payload; it only proves the client is alive.
    ClSync,
    /// A client sets its own position.
    ClMoveSetPosition { pos: Point3 },
    /// The server's full snapshot of the world for one recipient.
    SvUpdateWorld { updates: Vec<EntityUpdate> },
}

/// The mathematical shape of an [`Operation`].
pub enum OperationV {
    ClConnectMessage,
    SvConnectResponse { uuid: Id },
    DisconnectMessage,
    ClSync,
    ClMoveSetPosition { pos: Point3 },
    SvUpdateWorld { updates: Seq<EntityUpdateV> },
}

impl View for Operation {
    type V = OperationV;

    open spec fn view(&self) -> OperationV {
        match self {
            Operation::ClConnectMessage => OperationV::ClConnectMessage,
            Operation::SvConnectResponse { uuid } => OperationV::SvConnectResponse { uuid: *uuid },
            Operation::DisconnectMessage => OperationV::DisconnectMessage,
            Operation::ClSync => OperationV::ClSync,
            Operation::ClMoveSetPosition { pos } => OperationV::ClMoveSetPosition { pos: *pos },
            Operation::SvUpdateWorld { updates } => OperationV::SvUpdateWorld {
                updates: updates.deep_view(),
            },
        }
    }
}

impl DeepView for Operation {
    type V = OperationV;

    open spec fn deep_view(&self) -> OperationV {
        self@
    }
}

} // verus!
