use vstd::prelude::*;
use crate::action::event::{ActionEvent, ConnectionEvent};
use crate::game::component::{Client, Position};
use crate::game::game::{Entity, GameWorld};
use crate::net::operation::Point3;
use crate::simulation::component::Id;

verus! {

/// The entity a connection event spawns: the client's identity, standing
/// at the origin.
pub open spec fn spawned(u: Id) -> Entity {
    Entity { client: Client(u), position: Position(Point3 { x: 0, y: 0, z: 0 }) }
}

/// `w` without the first entity belonging to `u`; `w` itself when none is.
pub open spec fn remove_first(w: Seq<Entity>, u: Id) -> Seq<Entity>
    decreases w.len(),
{
    if w.len() == 0 {
        w
    } else if w[0].client.0 == u {
        w.drop_first()
    } else {
        seq![w[0]] + remove_first(w.drop_first(), u)
    }
}

/// What one action event does to the entity store. Every connection event
/// spawns an entity — this pipeline does not look for an existing one —
/// and a disconnection deletes the first entity of that client.
pub open spec fn connections_step(w: Seq<Entity>, ev: ActionEvent) -> Seq<Entity> {
    match ev {
        ActionEvent::ConnectionEvent(ConnectionEvent::ClientConnected(u)) => w.push(spawned(u)),
        ActionEvent::ConnectionEvent(ConnectionEvent::ClientDisconnected(u)) => remove_first(
            w,
            u,
        ),
        _ => w,
    }
}

/// The whole batch applied in arrival order.
pub open spec fn connections_events(w: Seq<Entity>, evs: Seq<ActionEvent>) -> Seq<Entity>
    decreases evs.len(),
{
    if evs.len() == 0 {
        w
    } else {
        connections_step(connections_events(w, evs.drop_last()), evs.last())
    }
}

/// Deleting the first matching entity is removal at the first matching
/// index.
proof fn lemma_remove_first_found(w: Seq<Entity>, u: Id, i: int)
    requires
        0 <= i < w.len(),
        w[i].client.0 == u,
        forall|k: int| 0 <= k < i ==> (#[trigger] w[k]).client.0 != u,
    ensures
        remove_first(w, u) == w.remove(i),
    decreases i,
{
    if i == 0 {
        assert(w.remove(0) =~= w.drop_first());
    } else {
        assert(forall|k: int| 0 <= k < i - 1 ==> #[trigger] w.drop_first()[k] == w[k + 1]);
        assert(w.drop_first()[i - 1] == w[i]);
        lemma_remove_first_found(w.drop_first(), u, i - 1);
        assert(w.remove(i) =~= seq![w[0]] + w.drop_first().remove(i - 1));
    }
}

/// With no matching entity, the deletion is a no-op.
proof fn lemma_remove_first_none(w: Seq<Entity>, u: Id)
    requires
        forall|k: int| 0 <= k < w.len() ==> (#[trigger] w[k]).client.0 != u,
    ensures
        remove_first(w, u) == w,
    decreases w.len(),
{
    if w.len() > 0 {
        assert(forall|k: int| 0 <= k < w.len() - 1 ==> #[trigger] w.drop_first()[k] == w[k + 1]);
        lemma_remove_first_none(w.drop_first(), u);
        assert(seq![w[0]] + w.drop_first() =~= w);
    }
}

/// The connection system of the action pipeline: spawns an entity per
/// connection event, deletes one per disconnection.
pub struct Connections;

impl Connections {
    /// Applies one action event to the entity store.
    fn apply_event(world: &mut GameWorld, ev: &ActionEvent)
        ensures
            final(world).entities@ == connections_step(old(world).entities@, *ev),
    {
        match *ev {
            ActionEvent::ConnectionEvent(ConnectionEvent::ClientConnected(u)) => {
                world.entities.push(
                    Entity { client: Client(u), position: Position(Point3 { x: 0, y: 0, z: 0 }) },
                );
            },
            ActionEvent::ConnectionEvent(ConnectionEvent::ClientDisconnected(u)) => {
                let ghost w0 = world.entities@;
                let n = world.entities.len();
                for i in 0..n
                    invariant
                        n == world.entities@.len(),
                        world.entities@ == w0,
                        w0 == old(world).entities@,
                        *ev == ActionEvent::ConnectionEvent(ConnectionEvent::ClientDisconnected(u)),
                        forall|k: int| 0 <= k < i ==> (#[trigger] w0[k]).client.0 != u,
                {
                    if world.entities[i].client.0 == u {
                        proof {
                            lemma_remove_first_found(w0, u, i as int);
                            assert(connections_step(w0, *ev) == remove_first(w0, u));
                        }
                        world.entities.remove(i);
                        return ;
                    }
                }
                proof {
                    lemma_remove_first_none(w0, u);
                }
            },
            ActionEvent::MovementEvent(_) => {},
        }
    }

    /// One tick of the system: every event of the batch, in arrival order.
    pub fn run(&self, world: &mut GameWorld, events: &Vec<ActionEvent>)
        ensures
            final(world).entities@ == connections_events(old(world).entities@, events@),
    {
        let ghost w0 = world.entities@;
        let n = events.len();
        for idx in 0..n
            invariant
                n == events@.len(),
                world.entities@ == connections_events(w0, events@.take(idx as int)),
        {
            Self::apply_event(world, &events[idx]);
            proof {
                assert(events@.take(idx + 1).drop_last() =~= events@.take(idx as int));
                assert(events@.take(idx + 1).last() == events@[idx as int]);
            }
        }
        proof {
            assert(events@.take(n as int) =~= events@);
        }
    }
}

} // verus!
