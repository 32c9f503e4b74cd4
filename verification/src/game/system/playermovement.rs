use vstd::prelude::*;
use vstd::pervasive::VecAdditionalExecFns;
use crate::action::event::ActionEvent;
use crate::game::component::Position;
use crate::game::game::{Entity, GameWorld};
use crate::net::operation::Point3;
use crate::simulation::component::Id;

verus! {

/// The position carried by the last movement event addressed to `u` in
/// `evs`, if there is one.
pub open spec fn last_action_move(evs: Seq<ActionEvent>, u: Id) -> Option<Point3>
    decreases evs.len(),
{
    if evs.len() == 0 {
        None
    } else {
        match evs.last() {
            ActionEvent::MovementEvent(m) => {
                if m.uuid == u {
                    Some(m.position)
                } else {
                    last_action_move(evs.drop_last(), u)
                }
            },
            _ => last_action_move(evs.drop_last(), u),
        }
    }
}

/// `w` after the batch's movement events: each entity stands at the
/// position of the last movement event addressed to its client, or stays
/// put.
pub open spec fn moved_entities(w: Seq<Entity>, evs: Seq<ActionEvent>) -> Seq<Entity> {
    Seq::new(
        w.len(),
        |i: int|
            match last_action_move(evs, w[i].client.0) {
                Some(p) => Entity { client: w[i].client, position: Position(p) },
                None => w[i],
            },
    )
}

/// The movement system of the action pipeline: the last movement event
/// for a client in one tick wins.
pub struct PlayerMovement;

impl PlayerMovement {
    pub fn run(&self, world: &mut GameWorld, events: &Vec<ActionEvent>)
        ensures
            final(world).entities@ == moved_entities(old(world).entities@, events@),
    {
        let ghost w0 = world.entities@;
        let n = world.entities.len();
        let m = events.len();
        for i in 0..n
            invariant
                n == world.entities@.len(),
                w0.len() == n,
                m == events@.len(),
                forall|k: int| 0 <= k < i ==> world.entities@[k] == moved_entities(w0, events@)[k],
                forall|k: int| i <= k < n ==> world.entities@[k] == w0[k],
        {
            let u = world.entities[i].client.0;
            let mut cur: Option<Point3> = None;
            for j in 0..m
                invariant
                    m == events@.len(),
                    cur == last_action_move(events@.take(j as int), u),
            {
                match &events[j] {
                    ActionEvent::MovementEvent(mv) => {
                        if mv.uuid == u {
                            cur = Some(mv.position);
                        }
                    },
                    _ => {},
                }
                proof {
                    assert(events@.take(j + 1).drop_last() =~= events@.take(j as int));
                    assert(events@.take(j + 1).last() == events@[j as int]);
                }
            }
            proof {
                assert(events@.take(m as int) =~= events@);
            }
            match cur {
                Some(p) => {
                    let e = world.entities[i];
                    world.entities.set(i, Entity { client: e.client, position: Position(p) });
                },
                None => {},
            }
        }
        proof {
            assert(world.entities@ =~= moved_entities(w0, events@));
        }
    }
}

} // verus!
