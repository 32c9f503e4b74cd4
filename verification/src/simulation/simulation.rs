use vstd::prelude::*;
use crate::net::operation::{Operation, Point3};
use crate::simulation::component::{Id, Position};
use crate::simulation::event::{Event, EventQueue};
use crate::simulation::system::connections::{
    disconnects, expiry_at, lemma_disconnect_removes, lemma_surviving_alive, lifecycle_events,
    lifecycle_run, lifecycle_step, refreshed, refreshes, surviving, Connections,
};
use crate::simulation::system::playermovement::{last_move, moved, PlayerMovement};
use crate::simulation::system::updatesender::{
    acknowledged, snapshot_for, update_for, UpdateSender,
};
use crate::simulation::world::{fresh_session, has_session, Session, World};

verus! {

/// The session store as the sender finds it: the lifecycle system has
/// consumed the batch and swept, then the movement system has applied the
/// batch's movement events.
pub open spec fn tick_mid(w: Seq<Session>, evs: Seq<Event>, now: u64, ttl: u64) -> Seq<Session> {
    moved(lifecycle_run(w, evs, now, ttl), evs)
}

/// The session store a whole tick leaves behind: `tick_mid`, every
/// surviving session acknowledged and connected.
pub open spec fn tick_world(w: Seq<Session>, evs: Seq<Event>, now: u64, ttl: u64) -> Seq<
    Session,
> {
    acknowledged(tick_mid(w, evs, now, ttl))
}

/// Movement and acknowledgment never create or destroy a session, nor
/// change an identifier: the stores the sender and the next tick see carry
/// exactly the identifiers the sweep let through.
pub proof fn lemma_tick_ids(w: Seq<Session>, evs: Seq<Event>, now: u64, ttl: u64)
    ensures
        tick_mid(w, evs, now, ttl).len() == lifecycle_run(w, evs, now, ttl).len(),
        tick_world(w, evs, now, ttl).len() == lifecycle_run(w, evs, now, ttl).len(),
        forall|i: int|
            0 <= i < lifecycle_run(w, evs, now, ttl).len() ==> (#[trigger] tick_mid(
                w,
                evs,
                now,
                ttl,
            )[i]).id == lifecycle_run(w, evs, now, ttl)[i].id && tick_world(w, evs, now, ttl)[i].id
                == lifecycle_run(w, evs, now, ttl)[i].id,
{
}

/// Law: events of one batch apply in arrival order — a handshake followed
/// by two movement events for the same client, delivered in one tick,
/// leaves that client's fresh session standing at the second position (the
/// tick must not be the last representable instant, at which every session
/// expires).
pub proof fn lemma_move_ordering(
    w: Seq<Session>,
    id: Id,
    p1: Point3,
    p2: Point3,
    now: u64,
    ttl: u64,
)
    requires
        ttl > 0,
        now < u64::MAX,
        !has_session(w, id),
    ensures
        ({
            let evs = seq![
                Event { uuid: id, op: Operation::ClConnectMessage },
                Event { uuid: id, op: Operation::ClMoveSetPosition { pos: p1 } },
                Event { uuid: id, op: Operation::ClMoveSetPosition { pos: p2 } },
            ];
            exists|t: int|
                0 <= t < tick_world(w, evs, now, ttl).len() && (#[trigger] tick_world(
                    w,
                    evs,
                    now,
                    ttl,
                )[t]).id == id && tick_world(w, evs, now, ttl)[t].position == Position(p2)
        }),
{
    let e0 = Event { uuid: id, op: Operation::ClConnectMessage };
    let e1 = Event { uuid: id, op: Operation::ClMoveSetPosition { pos: p1 } };
    let e2 = Event { uuid: id, op: Operation::ClMoveSetPosition { pos: p2 } };
    let evs = seq![e0, e1, e2];
    reveal_with_fuel(lifecycle_events, 4);
    assert(evs.drop_last() =~= seq![e0, e1]);
    assert(seq![e0, e1].drop_last() =~= seq![e0]);
    assert(seq![e0].drop_last() =~= Seq::<Event>::empty());
    let ex = expiry_at(now, ttl);
    assert(ex > now);
    let w1 = lifecycle_step(w, e0, now, ttl);
    assert(w1 == w.push(fresh_session(id, ex)));
    let n0 = w.len() as int;
    assert(w1[n0].id == id && w1[n0].client.lifetime == ex);
    let w2 = lifecycle_step(w1, e1, now, ttl);
    assert(w2 == refreshed(w1, id, ex));
    assert(w2[n0].id == id && w2[n0].client.lifetime == ex);
    let w3 = lifecycle_step(w2, e2, now, ttl);
    assert(w3 == refreshed(w2, id, ex));
    assert(w3[n0].id == id && w3[n0].client.lifetime == ex);
    assert(lifecycle_events(w, seq![e0], now, ttl) == w1);
    assert(lifecycle_events(w, seq![e0, e1], now, ttl) == w2);
    assert(lifecycle_events(w, evs, now, ttl) == w3);
    lemma_surviving_alive(w3, now);
    let run = lifecycle_run(w, evs, now, ttl);
    let k = choose|k: int|
        0 <= k < surviving(w3, now).len() && #[trigger] surviving(w3, now)[k] == w3[n0];
    assert(run[k].id == id);
    assert(last_move(evs, id) == Some(p2));
    let mid_ = tick_mid(w, evs, now, ttl);
    assert(mid_[k].id == id && mid_[k].position == Position(p2));
    let tw = tick_world(w, evs, now, ttl);
    assert(tw[k].id == id && tw[k].position == Position(p2));
}

/// Law: a client that disconnects is gone by the end of the tick — absent
/// later refreshing traffic for it in the same batch, its session is not
/// in the resulting store, no update of the tick is addressed to it, and
/// no snapshot the tick emits mentions it.
pub proof fn lemma_disconnect_scenario(
    w: Seq<Session>,
    evs: Seq<Event>,
    now: u64,
    ttl: u64,
    id: Id,
    k: int,
)
    requires
        has_session(w, id),
        0 <= k < evs.len(),
        disconnects(evs[k], id),
        forall|j: int| k < j < evs.len() ==> !refreshes(#[trigger] evs[j], id),
    ensures
        !has_session(tick_world(w, evs, now, ttl), id),
        forall|j: int|
            0 <= j < tick_mid(w, evs, now, ttl).len() ==> (#[trigger] update_for(
                tick_mid(w, evs, now, ttl),
                j,
            )).0 != id,
        forall|r: Id, t: int|
            0 <= t < snapshot_for(tick_mid(w, evs, now, ttl), r).len() ==> (
            #[trigger] snapshot_for(tick_mid(w, evs, now, ttl), r)[t]).uuid != id,
{
    lemma_disconnect_removes(w, evs, now, ttl, id, k);
    lemma_tick_ids(w, evs, now, ttl);
    let run = lifecycle_run(w, evs, now, ttl);
    let mid_ = tick_mid(w, evs, now, ttl);
    assert(forall|i: int| 0 <= i < run.len() ==> (#[trigger] run[i]).id != id);
    assert forall|j: int| 0 <= j < mid_.len() implies (#[trigger] update_for(mid_, j)).0
        != id by {
        assert(mid_[j].id == run[j].id);
    }
    assert forall|r: Id, t: int|
        0 <= t < snapshot_for(mid_, r).len() implies (#[trigger] snapshot_for(mid_, r)[t]).uuid
        != id by {
        assert(snapshot_for(mid_, r)[t].uuid == mid_[t].id);
        assert(mid_[t].id == run[t].id);
    }
    assert forall|i: int|
        0 <= i < tick_world(w, evs, now, ttl).len() implies (#[trigger] tick_world(
        w,
        evs,
        now,
        ttl,
    )[i]).id != id by {}
}

/// The simulation: the session store together with the three systems that
/// run over it, in order, once per tick — connection lifecycle, player
/// movement, update sender.
pub struct Simulation {
    world: World,
    connections: Connections,
    player_movement: PlayerMovement,
    update_sender: UpdateSender,
}

impl Simulation {
    /// The session store, as the mathematics sees it.
    pub closed spec fn world_model(&self) -> Seq<Session> {
        self.world.sessions@
    }

    /// The client time-to-live the simulation was built with.
    pub closed spec fn ttl(&self) -> u64 {
        self.connections.ttl()
    }

    /// Sessions always carry pairwise distinct identifiers.
    pub closed spec fn inv(&self) -> bool {
        self.world.wf()
    }

    /// Read access to the session store, for the host and for tests.
    pub fn world(&self) -> (r: &World)
        ensures
            r.sessions@ == self.world_model(),
    {
        &self.world
    }

    /// One simulation tick at timestamp `now` (milliseconds of simulated
    /// time): drains the given batch through the three systems and returns
    /// the outbound updates the tick owes, one per surviving session, in
    /// store order.
    pub fn tick(&mut self, events: &EventQueue, now: u64) -> (out: Vec<(Id, Operation)>)
        requires
            old(self).inv(),
        ensures
            final(self).inv(),
            final(self).ttl() == old(self).ttl(),
            final(self).world_model() == tick_world(
                old(self).world_model(),
                events@,
                now,
                old(self).ttl(),
            ),
            out@.len() == tick_mid(old(self).world_model(), events@, now, old(self).ttl()).len(),
            forall|k: int|
                0 <= k < out@.len() ==> #[trigger] out@[k].0 == update_for(
                    tick_mid(old(self).world_model(), events@, now, old(self).ttl()),
                    k,
                ).0,
            forall|k: int|
                0 <= k < out@.len() ==> #[trigger] out@[k].1@ == update_for(
                    tick_mid(old(self).world_model(), events@, now, old(self).ttl()),
                    k,
                ).1,
    {
        self.connections.run(&mut self.world, events, now);
        self.player_movement.run(&mut self.world, events);
        self.update_sender.run(&mut self.world)
    }
}

/// Builds the simulation pipeline with an empty session store and the given
/// client time-to-live in milliseconds.
pub fn build_simulation(client_ttl_ms: u64) -> (r: Simulation)
    ensures
        r.inv(),
        r.world_model() == Seq::<Session>::empty(),
        r.ttl() == client_ttl_ms,
{
    Simulation {
        world: World::new(),
        connections: Connections::new(client_ttl_ms),
        player_movement: PlayerMovement,
        update_sender: UpdateSender::new(),
    }
}

} // verus!
