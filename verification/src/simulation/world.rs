use vstd::prelude::*;
use crate::net::operation::Point3;
use crate::simulation::component::{Client, ClientState, Health, Id, Position};

verus! {

/// One client's session as the simulation sees it: identity, lifecycle,
/// position and (when known) health. The network threads never touch these;
/// they speak to the simulation only through events keyed by identifier.
#[derive(Clone, Copy, Debug)]
pub struct Session {
    pub id: Id,
    pub client: Client,
    pub position: Position,
    pub health: Option<Health>,
}

/// Whether some session in `w` carries the identifier `id`.
pub open spec fn has_session(w: Seq<Session>, id: Id) -> bool {
    exists|i: int| 0 <= i < w.len() && w[i].id == id
}

/// The session store: an arena of sessions in creation order. Every system
/// of the tick pipeline walks it in this order, so all per-tick outputs are
/// deterministic functions of the store and the event batch.
pub struct World {
    pub sessions: Vec<Session>,
}

impl World {
    /// Sessions carry pairwise distinct identifiers.
    pub open spec fn wf(&self) -> bool {
        forall|i: int, j: int|
            0 <= i < j < self.sessions@.len() ==> self.sessions@[i].id != self.sessions@[j].id
    }

    pub fn new() -> (r: World)
        ensures
            r.sessions@ == Seq::<Session>::empty(),
            r.wf(),
    {
        World { sessions: Vec::new() }
    }

    /// Whether a session with this identifier exists right now.
    pub fn contains(&self, id: Id) -> (r: bool)
        ensures
            r == has_session(self.sessions@, id),
    {
        let n = self.sessions.len();
        for i in 0..n
            invariant
                n == self.sessions@.len(),
                forall|k: int| 0 <= k < i ==> self.sessions@[k].id != id,
        {
            if self.sessions[i].id == id {
                return true;
            }
        }
        false
    }
}

/// The session a fresh handshake creates: connecting, at the origin, with
/// the given expiry time and nothing else known about the client yet.
pub open spec fn fresh_session(id: Id, expiry: u64) -> Session {
    Session {
        id,
        client: Client { state: ClientState::Connecting, lifetime: expiry },
        position: Position(Point3 { x: 0, y: 0, z: 0 }),
        health: None,
    }
}

} // verus!
