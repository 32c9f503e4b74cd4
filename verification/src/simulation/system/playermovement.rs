use vstd::prelude::*;
use vstd::pervasive::VecAdditionalExecFns;
use crate::net::operation::{Operation, Point3};
use crate::simulation::component::{Id, Position};
use crate::simulation::event::{Event, EventQueue};
use crate::simulation::world::{Session, World};

verus! {

/// The position carried by the last movement event addressed to `id` in
/// `evs`, if there is one.
pub open spec fn last_move(evs: Seq<Event>, id: Id) -> Option<Point3>
    decreases evs.len(),
{
    if evs.len() == 0 {
        None
    } else {
        match evs.last().op {
            Operation::ClMoveSetPosition { pos } => {
                if evs.last().uuid == id {
                    Some(pos)
                } else {
                    last_move(evs.drop_last(), id)
                }
            },
            _ => last_move(evs.drop_last(), id),
        }
    }
}

/// `w` after the batch's movement events: each session stands at the
/// position of the last movement event addressed to it, or where it already
/// stood when the batch holds none for it.
pub open spec fn moved(w: Seq<Session>, evs: Seq<Event>) -> Seq<Session> {
    Seq::new(
        w.len(),
        |i: int|
            match last_move(evs, w[i].id) {
                Some(p) => Session {
                    id: w[i].id,
                    client: w[i].client,
                    position: Position(p),
                    health: w[i].health,
                },
                None => w[i],
            },
    )
}

/// The movement system: consumes the batch's movement events and overwrites
/// the authoritative position of each addressed session. When several
/// movement events target one session in one tick, the last one in arrival
/// order wins; nothing else about a session changes.
pub struct PlayerMovement;

impl PlayerMovement {
    pub fn run(&self, world: &mut World, events: &EventQueue)
        ensures
            final(world).sessions@ == moved(old(world).sessions@, events@),
            old(world).wf() ==> final(world).wf(),
    {
        let ghost w0 = world.sessions@;
        let n = world.sessions.len();
        let m = events.len();
        for i in 0..n
            invariant
                n == world.sessions@.len(),
                w0.len() == n,
                m == events@.len(),
                forall|k: int| 0 <= k < i ==> world.sessions@[k] == moved(w0, events@)[k],
                forall|k: int| i <= k < n ==> world.sessions@[k] == w0[k],
        {
            let id = world.sessions[i].id;
            let mut cur: Option<Point3> = None;
            for j in 0..m
                invariant
                    m == events@.len(),
                    cur == last_move(events@.take(j as int), id),
            {
                match &events[j].op {
                    Operation::ClMoveSetPosition { pos } => {
                        if events[j].uuid == id {
                            cur = Some(*pos);
                        }
                    },
                    _ => {},
                }
                proof {
                    assert(events@.take(j + 1).drop_last() =~= events@.take(j as int));
                    assert(events@.take(j + 1).last() == events@[j as int]);
                }
            }
            proof {
                assert(events@.take(m as int) =~= events@);
            }
            match cur {
                Some(p) => {
                    let s = world.sessions[i];
                    world.sessions.set(
                        i,
                        Session { id: s.id, client: s.client, position: Position(p), health: s.health },
                    );
                },
                None => {},
            }
        }
        proof {
            assert(world.sessions@ =~= moved(w0, events@));
            if old(world).wf() {
                assert forall|i: int, j: int|
                    0 <= i < j < world.sessions@.len() implies world.sessions@[i].id
                    != world.sessions@[j].id by {
                    assert(world.sessions@[i].id == w0[i].id);
                    assert(world.sessions@[j].id == w0[j].id);
                }
            }
        }
    }
}

} // verus!
