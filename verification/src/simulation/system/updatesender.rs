use vstd::prelude::*;
use vstd::pervasive::VecAdditionalExecFns;
use crate::net::operation::{
    EntityComponent, EntityUpdate, EntityUpdateV, Operation, OperationV,
};
use crate::simulation::component::{Client, ClientState, Id};
use crate::simulation::world::{Session, World};

verus! {

/// The components of session `s` that `recipient` is shown in a snapshot:
/// the position unless `s` is the recipient itself (no self-position echo),
/// then the health whenever it is known.
pub open spec fn shown_components(s: Session, recipient: Id) -> Seq<EntityComponent> {
    let pos = if s.id == recipient {
        Seq::<EntityComponent>::empty()
    } else {
        seq![EntityComponent::Position(s.position.0)]
    };
    let health = match s.health {
        Some(h) => seq![EntityComponent::Health(h.0)],
        None => Seq::<EntityComponent>::empty(),
    };
    pos + health
}

/// The full snapshot of `w` as `recipient` is shown it: one entry per
/// session, in store order.
pub open spec fn snapshot_for(w: Seq<Session>, recipient: Id) -> Seq<EntityUpdateV> {
    Seq::new(
        w.len(),
        |i: int| EntityUpdateV { uuid: w[i].id, data: shown_components(w[i], recipient) },
    )
}

/// The one outbound message session `w[i]` is owed this tick: a connection
/// acknowledgment while it is connecting, a full world snapshot once it is
/// connected.
pub open spec fn update_for(w: Seq<Session>, i: int) -> (Id, OperationV) {
    if w[i].client.state is Connecting {
        (w[i].id, OperationV::SvConnectResponse { uuid: w[i].id })
    } else {
        (w[i].id, OperationV::SvUpdateWorld { updates: snapshot_for(w, w[i].id) })
    }
}

/// `w` after the sender has run: every session acknowledged and connected,
/// nothing else changed.
pub open spec fn acknowledged(w: Seq<Session>) -> Seq<Session> {
    Seq::new(
        w.len(),
        |i: int| Session {
            id: w[i].id,
            client: Client { state: ClientState::Connected, lifetime: w[i].client.lifetime },
            position: w[i].position,
            health: w[i].health,
        },
    )
}

/// Snapshots ignore the lifecycle component, so two stores that agree on
/// identifiers, positions and health are shown alike.
proof fn lemma_snapshot_same(w1: Seq<Session>, w2: Seq<Session>, recipient: Id)
    requires
        w1.len() == w2.len(),
        forall|k: int|
            0 <= k < w1.len() ==> #[trigger] w1[k].id == w2[k].id && w1[k].position
                == w2[k].position && w1[k].health == w2[k].health,
    ensures
        snapshot_for(w1, recipient) == snapshot_for(w2, recipient),
{
    assert forall|k: int|
        0 <= k < w1.len() implies #[trigger] snapshot_for(w1, recipient)[k] == snapshot_for(
        w2,
        recipient,
    )[k] by {
        assert(shown_components(w1[k], recipient) =~= shown_components(w2[k], recipient));
    }
    assert(snapshot_for(w1, recipient) =~= snapshot_for(w2, recipient));
}

/// Law: a connected session's snapshot shows every other session under its
/// identifier with exactly its authoritative position first, while the
/// recipient's own entry carries no position at all.
pub proof fn lemma_snapshot_roundtrip(w: Seq<Session>, i: int, j: int)
    requires
        forall|p: int, q: int| 0 <= p < q < w.len() ==> w[p].id != w[q].id,
        0 <= i < w.len(),
        0 <= j < w.len(),
        i != j,
        w[j].client.state is Connected,
    ensures
        update_for(w, j).0 == w[j].id,
        update_for(w, j).1 is SvUpdateWorld,
        update_for(w, j).1->updates.len() == w.len(),
        update_for(w, j).1->updates[i].uuid == w[i].id,
        update_for(w, j).1->updates[i].data[0] == EntityComponent::Position(w[i].position.0),
        update_for(w, j).1->updates[j].uuid == w[j].id,
        forall|c: EntityComponent|
            update_for(w, j).1->updates[j].data.contains(c) ==> !(c is Position),
{
    let ups = update_for(w, j).1->updates;
    assert(w[i].id != w[j].id);
    assert(ups[i].data == shown_components(w[i], w[j].id));
    assert(ups[j].data == shown_components(w[j], w[j].id));
    assert forall|c: EntityComponent| ups[j].data.contains(c) implies !(c is Position) by {
        let t = choose|t: int| 0 <= t < ups[j].data.len() && ups[j].data[t] == c;
        match w[j].health {
            Some(h) => {
                assert(ups[j].data =~= seq![EntityComponent::Health(h.0)]);
            },
            None => {
                assert(ups[j].data =~= Seq::<EntityComponent>::empty());
            },
        }
    }
}

/// The update sender system. Each tick it walks the session store in order
/// and emits exactly one outbound message per session; acknowledging a
/// connecting session is what moves it to the connected state.
pub struct UpdateSender;

impl UpdateSender {
    pub fn new() -> (r: UpdateSender) {
        UpdateSender
    }

    /// Builds the full world snapshot message for one recipient.
    fn world_update(sessions: &Vec<Session>, recipient: Id) -> (op: Operation)
        ensures
            op@ == (OperationV::SvUpdateWorld { updates: snapshot_for(sessions@, recipient) }),
    {
        let mut updates: Vec<EntityUpdate> = Vec::new();
        let n = sessions.len();
        for k in 0..n
            invariant
                n == sessions@.len(),
                updates@.len() == k,
                forall|t: int|
                    0 <= t < k ==> #[trigger] updates@[t]@ == snapshot_for(
                        sessions@,
                        recipient,
                    )[t],
        {
            let s = sessions[k];
            let mut data: Vec<EntityComponent> = Vec::new();
            if s.id != recipient {
                data.push(EntityComponent::Position(s.position.0));
            }
            match s.health {
                Some(h) => data.push(EntityComponent::Health(h.0)),
                None => {},
            }
            proof {
                assert(data@ =~= shown_components(s, recipient));
            }
            updates.push(EntityUpdate { uuid: s.id, data });
        }
        let op = Operation::SvUpdateWorld { updates };
        proof {
            assert(updates.deep_view() =~= snapshot_for(sessions@, recipient));
        }
        op
    }

    /// One tick of the sender over the whole store: the returned batch holds
    /// one `(identifier, message)` pair per session, in store order, and
    /// every session leaves the tick connected.
    pub fn run(&self, world: &mut World) -> (out: Vec<(Id, Operation)>)
        ensures
            final(world).sessions@ == acknowledged(old(world).sessions@),
            old(world).wf() ==> final(world).wf(),
            out@.len() == old(world).sessions@.len(),
            forall|k: int|
                0 <= k < out@.len() ==> #[trigger] out@[k].0 == update_for(
                    old(world).sessions@,
                    k,
                ).0,
            forall|k: int|
                0 <= k < out@.len() ==> #[trigger] out@[k].1@ == update_for(
                    old(world).sessions@,
                    k,
                ).1,
    {
        let ghost w0 = world.sessions@;
        let mut out: Vec<(Id, Operation)> = Vec::new();
        let n = world.sessions.len();
        for i in 0..n
            invariant
                n == world.sessions@.len(),
                w0.len() == n,
                forall|k: int| 0 <= k < i ==> world.sessions@[k] == acknowledged(w0)[k],
                forall|k: int| i <= k < n ==> world.sessions@[k] == w0[k],
                out@.len() == i,
                forall|k: int| 0 <= k < i ==> #[trigger] out@[k].0 == update_for(w0, k).0,
                forall|k: int| 0 <= k < i ==> #[trigger] out@[k].1@ == update_for(w0, k).1,
        {
            let s = world.sessions[i];
            match s.client.state {
                ClientState::Connecting => {
                    out.push((s.id, Operation::SvConnectResponse { uuid: s.id }));
                    world.sessions.set(
                        i,
                        Session {
                            id: s.id,
                            client: Client {
                                state: ClientState::Connected,
                                lifetime: s.client.lifetime,
                            },
                            position: s.position,
                            health: s.health,
                        },
                    );
                },
                ClientState::Connected => {
                    let op = Self::world_update(&world.sessions, s.id);
                    proof {
                        assert forall|k: int|
                            0 <= k < world.sessions@.len() implies #[trigger] world.sessions@[k].id
                            == w0[k].id && world.sessions@[k].position == w0[k].position
                            && world.sessions@[k].health == w0[k].health by {
                            if k < i {
                                assert(world.sessions@[k] == acknowledged(w0)[k]);
                            }
                        }
                        lemma_snapshot_same(world.sessions@, w0, s.id);
                    }
                    out.push((s.id, op));
                },
            }
        }
        proof {
            assert(world.sessions@ =~= acknowledged(w0));
            if old(world).wf() {
                assert forall|i: int, j: int|
                    0 <= i < j < world.sessions@.len() implies world.sessions@[i].id
                    != world.sessions@[j].id by {
                    assert(world.sessions@[i].id == w0[i].id);
                    assert(world.sessions@[j].id == w0[j].id);
                }
            }
        }
        out
    }
}

} // verus!
