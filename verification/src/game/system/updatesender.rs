use vstd::prelude::*;
use crate::action::event::{MovementEvent, Update, UpdateEvent};
use crate::game::game::{Entity, GameWorld};

verus! {

/// The update the sender owes when entity `i` is shown to receiver `j`:
/// addressed to the receiver's client, carrying entity `i`'s position.
pub open spec fn broadcast_item(w: Seq<Entity>, i: int, j: int) -> Update {
    Update {
        uuid: w[j].client.0,
        event: UpdateEvent::MovementEvent(
            MovementEvent { uuid: w[i].client.0, position: w[i].position.0 },
        ),
    }
}

/// The sender of the action pipeline: it broadcasts every entity's
/// position to every client — the sending client included — one update per
/// entity-receiver pair, receivers iterated innermost.
pub struct UpdateSender;

impl UpdateSender {
    pub fn new() -> (r: UpdateSender) {
        UpdateSender
    }

    pub fn run(&self, world: &GameWorld) -> (out: Vec<Update>)
        ensures
            out@.len() == world.entities@.len() * world.entities@.len(),
            forall|i: int, j: int|
                0 <= i < world.entities@.len() && 0 <= j < world.entities@.len() ==> out@[i
                    * world.entities@.len() + j] == #[trigger] broadcast_item(
                    world.entities@,
                    i,
                    j,
                ),
    {
        let ghost w = world.entities@;
        let n = world.entities.len();
        let mut out: Vec<Update> = Vec::new();
        for i in 0..n
            invariant
                n == world.entities@.len(),
                world.entities@ == w,
                out@.len() == i * n,
                forall|p: int, q: int|
                    0 <= p < i && 0 <= q < n ==> out@[p * n + q] == #[trigger] broadcast_item(
                        w,
                        p,
                        q,
                    ),
        {
            for j in 0..n
                invariant
                    n == world.entities@.len(),
                    world.entities@ == w,
                    i < n,
                    out@.len() == i * n + j,
                    forall|p: int, q: int|
                        0 <= p < i && 0 <= q < n ==> out@[p * n + q] == #[trigger] broadcast_item(
                            w,
                            p,
                            q,
                        ),
                    forall|q: int|
                        0 <= q < j ==> out@[i * n + q] == #[trigger] broadcast_item(w, i as int, q),
            {
                let s = world.entities[i];
                let r = world.entities[j];
                out.push(
                    Update {
                        uuid: r.client.0,
                        event: UpdateEvent::MovementEvent(
                            MovementEvent { uuid: s.client.0, position: s.position.0 },
                        ),
                    },
                );
                proof {
                    let ni = n as int;
                    assert forall|p: int, q: int|
                        0 <= p < i && 0 <= q < ni implies out@[p * ni + q]
                        == broadcast_item(w, p, q) by {
                        assert(p * ni + q < i * ni) by (nonlinear_arith)
                            requires
                                0 <= p,
                                p + 1 <= i,
                                0 <= q,
                                q < ni,
                        ;
                        assert(out@[p * ni + q] == out@.drop_last()[p * ni + q]);
                    }
                }
            }
            proof {
                assert((i + 1) * (n as int) == i * (n as int) + (n as int)) by (nonlinear_arith);
            }
        }
        out
    }
}

} // verus!
