use vstd::prelude::*;
use crate::net::operation::Point3;

verus! {

/// Where a session stands in the connection handshake.
#[derive(Clone, Copy, Debug, PartialEq, Eq, Structural)]
pub enum ClientState {
    Connecting,
    Connected,
}

/// The lifecycle component of a session: the handshake state, and the tick
/// time (milliseconds of simulated time) at which the session expires unless
/// traffic from the client refreshes it first.
#[derive(Clone, Copy, Debug, PartialEq, Eq, Structural)]
pub struct Client {
    pub state: ClientState,
    pub lifetime: u64,
}

impl Client {
    /// A session always starts its life connecting, with the given expiry.
    pub fn new(lifetime: u64) -> (r: Client)
        ensures
            r == (Client { state: ClientState::Connecting, lifetime }),
    {
        Client { state: ClientState::Connecting, lifetime }
    }
}

/// The durable identity component: the opaque 128-bit value assigned to the
/// client at its handshake, independent of its transport address.
#[derive(Clone, Copy, Debug, PartialEq, Eq, Structural)]
pub struct Id(pub u128);

/// Hit points.
#[derive(Clone, Copy, Debug, PartialEq, Eq, Structural)]
pub struct Health(pub u64);

/// A display name. It plays no part in the synchronization protocol; no
/// system of this server fills it in.
#[derive(Debug)]
pub struct Name(pub String);

/// The authoritative position component.
#[derive(Clone, Copy, Debug, PartialEq, Eq, Structural)]
pub struct Position(pub Point3);

} // verus!
