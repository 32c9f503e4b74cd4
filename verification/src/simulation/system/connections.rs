use vstd::prelude::*;
use vstd::pervasive::VecAdditionalExecFns;
use crate::net::operation::{Operation, Point3};
use crate::simulation::component::{Client, ClientState, Id, Position};
use crate::simulation::event::{Event, EventQueue};
use crate::simulation::world::{fresh_session, has_session, Session, World};

verus! {

/// The expiry a refresh at tick time `now` grants: `now + ttl`, saturating
/// at the end of representable time.
pub open spec fn expiry_at(now: u64, ttl: u64) -> u64 {
    if now + ttl > u64::MAX {
        u64::MAX
    } else {
        (now + ttl) as u64
    }
}

/// `w` with the lifetime of every session carrying `id` replaced by `t`;
/// under [`World::wf`] at most one session does.
pub open spec fn refreshed(w: Seq<Session>, id: Id, t: u64) -> Seq<Session> {
    Seq::new(
        w.len(),
        |i: int|
            if w[i].id == id {
                Session {
                    id: w[i].id,
                    client: Client { state: w[i].client.state, lifetime: t },
                    position: w[i].position,
                    health: w[i].health,
                }
            } else {
                w[i]
            },
    )
}

/// What one inbound event does to the session store at tick time `now`: a
/// first handshake creates a session, liveness-bearing traffic refreshes the
/// expiry, an explicit disconnect expires the session at once, and anything
/// else leaves the store alone.
pub open spec fn lifecycle_step(w: Seq<Session>, ev: Event, now: u64, ttl: u64) -> Seq<Session> {
    match ev.op {
        Operation::ClConnectMessage => {
            if has_session(w, ev.uuid) {
                w
            } else {
                w.push(fresh_session(ev.uuid, expiry_at(now, ttl)))
            }
        },
        Operation::ClSync => refreshed(w, ev.uuid, expiry_at(now, ttl)),
        Operation::ClMoveSetPosition { .. } => refreshed(w, ev.uuid, expiry_at(now, ttl)),
        Operation::DisconnectMessage => refreshed(w, ev.uuid, now),
        _ => w,
    }
}

/// The whole batch applied in arrival order.
pub open spec fn lifecycle_events(w: Seq<Session>, evs: Seq<Event>, now: u64, ttl: u64) -> Seq<
    Session,
>
    decreases evs.len(),
{
    if evs.len() == 0 {
        w
    } else {
        lifecycle_step(lifecycle_events(w, evs.drop_last(), now, ttl), evs.last(), now, ttl)
    }
}

/// The sessions that survive the sweep at tick time `now`: those whose
/// expiry still lies in the future, in unchanged order.
pub open spec fn surviving(w: Seq<Session>, now: u64) -> Seq<Session>
    decreases w.len(),
{
    if w.len() == 0 {
        Seq::empty()
    } else {
        let rest = surviving(w.drop_last(), now);
        if w.last().client.lifetime > now {
            rest.push(w.last())
        } else {
            rest
        }
    }
}

/// Everything one tick of the lifecycle system does: the event batch in
/// arrival order, then the sweep at the tick's timestamp.
pub open spec fn lifecycle_run(w: Seq<Session>, evs: Seq<Event>, now: u64, ttl: u64) -> Seq<
    Session,
> {
    surviving(lifecycle_events(w, evs, now, ttl), now)
}

/// Every surviving session's identifier was present before the sweep, and
/// the sweep never introduces a duplicate identifier.
pub proof fn lemma_surviving_ids(w: Seq<Session>, now: u64)
    ensures
        forall|k: int|
            0 <= k < surviving(w, now).len() ==> has_session(
                w,
                #[trigger] surviving(w, now)[k].id,
            ),
        (forall|i: int, j: int| 0 <= i < j < w.len() ==> w[i].id != w[j].id) ==> (forall|
            i: int,
            j: int,
        |
            0 <= i < j < surviving(w, now).len() ==> surviving(w, now)[i].id != surviving(
                w,
                now,
            )[j].id),
    decreases w.len(),
{
    if w.len() == 0 {
    } else {
        let prev = w.drop_last();
        lemma_surviving_ids(prev, now);
        assert forall|k: int|
            0 <= k < surviving(w, now).len() implies has_session(
            w,
            #[trigger] surviving(w, now)[k].id,
        ) by {
            if k < surviving(prev, now).len() {
                assert(has_session(prev, surviving(prev, now)[k].id));
                let i = choose|i: int| 0 <= i < prev.len() && prev[i].id == surviving(prev, now)[k].id;
                assert(w[i].id == surviving(w, now)[k].id);
            } else {
                assert(surviving(w, now)[k] == w.last());
                assert(w[w.len() - 1].id == surviving(w, now)[k].id);
            }
        }
        if forall|i: int, j: int| 0 <= i < j < w.len() ==> w[i].id != w[j].id {
            assert(forall|i: int, j: int| 0 <= i < j < prev.len() ==> prev[i].id != prev[j].id);
            assert forall|i: int, j: int|
                0 <= i < j < surviving(w, now).len() implies surviving(w, now)[i].id != surviving(
                w,
                now,
            )[j].id by {
                if j < surviving(prev, now).len() {
                } else {
                    assert(surviving(w, now)[j] == w.last());
                    assert(has_session(prev, surviving(prev, now)[i].id));
                    let k = choose|k: int|
                        0 <= k < prev.len() && prev[k].id == surviving(prev, now)[i].id;
                    assert(w[k].id != w[w.len() - 1].id);
                }
            }
        }
    }
}

/// Whether `e` is liveness-bearing traffic for `id`: a heartbeat or a
/// movement event, which both push the session's expiry out.
pub open spec fn refreshes(e: Event, id: Id) -> bool {
    e.uuid == id && (e.op is ClSync || e.op is ClMoveSetPosition)
}

/// Whether `e` is an explicit disconnect for `id`.
pub open spec fn disconnects(e: Event, id: Id) -> bool {
    e.uuid == id && e.op is DisconnectMessage
}

/// Every surviving session is one of the sessions the sweep was shown.
proof fn lemma_surviving_member(w: Seq<Session>, now: u64)
    ensures
        forall|k: int|
            0 <= k < surviving(w, now).len() ==> exists|i: int|
                0 <= i < w.len() && w[i] == #[trigger] surviving(w, now)[k],
    decreases w.len(),
{
    if w.len() > 0 {
        let prev = w.drop_last();
        lemma_surviving_member(prev, now);
        assert forall|k: int|
            0 <= k < surviving(w, now).len() implies exists|i: int|
            0 <= i < w.len() && w[i] == #[trigger] surviving(w, now)[k] by {
            if k < surviving(prev, now).len() {
                let i = choose|i: int|
                    0 <= i < prev.len() && prev[i] == #[trigger] surviving(prev, now)[k];
                assert(w[i] == surviving(w, now)[k]);
            } else {
                assert(w[w.len() - 1] == surviving(w, now)[k]);
            }
        }
    }
}

/// The sweep keeps exactly the sessions whose expiry lies ahead: whatever
/// it returns is alive, and whatever was alive it returns.
pub proof fn lemma_surviving_alive(w: Seq<Session>, now: u64)
    ensures
        forall|k: int|
            0 <= k < surviving(w, now).len() ==> (#[trigger] surviving(
                w,
                now,
            )[k]).client.lifetime > now,
        forall|i: int|
            0 <= i < w.len() && (#[trigger] w[i]).client.lifetime > now ==> exists|k: int|
                0 <= k < surviving(w, now).len() && surviving(w, now)[k] == w[i],
    decreases w.len(),
{
    if w.len() > 0 {
        let prev = w.drop_last();
        lemma_surviving_alive(prev, now);
        assert forall|i: int|
            0 <= i < w.len() && (#[trigger] w[i]).client.lifetime > now implies exists|k: int|
            0 <= k < surviving(w, now).len() && surviving(w, now)[k] == w[i] by {
            if i < w.len() - 1 {
                assert(prev[i] == w[i]);
                let k = choose|k: int|
                    0 <= k < surviving(prev, now).len() && #[trigger] surviving(prev, now)[k]
                        == prev[i];
                assert(surviving(w, now)[k] == w[i]);
            } else {
                assert(surviving(w, now).last() == w[i]);
            }
        }
    }
}

/// A session never disappears while the batch is applied; only the sweep
/// destroys sessions.
proof fn lemma_events_keep_sessions(w: Seq<Session>, evs: Seq<Event>, now: u64, ttl: u64, id: Id)
    requires
        has_session(w, id),
    ensures
        has_session(lifecycle_events(w, evs, now, ttl), id),
    decreases evs.len(),
{
    if evs.len() > 0 {
        lemma_events_keep_sessions(w, evs.drop_last(), now, ttl, id);
        let mid = lifecycle_events(w, evs.drop_last(), now, ttl);
        let i = choose|i: int| 0 <= i < mid.len() && mid[i].id == id;
        let stepped = lifecycle_step(mid, evs.last(), now, ttl);
        assert(stepped[i].id == id);
    }
}

/// While the batch is applied, a session that is already expired and gets
/// no liveness-bearing event stays expired (a disconnect only expires it
/// more surely; a repeated handshake changes nothing).
proof fn lemma_stale_stays(w: Seq<Session>, evs: Seq<Event>, now: u64, ttl: u64, id: Id)
    requires
        has_session(w, id),
        forall|i: int|
            0 <= i < w.len() && (#[trigger] w[i]).id == id ==> w[i].client.lifetime <= now,
        forall|k: int| 0 <= k < evs.len() ==> !refreshes(#[trigger] evs[k], id),
    ensures
        has_session(lifecycle_events(w, evs, now, ttl), id),
        forall|i: int|
            0 <= i < lifecycle_events(w, evs, now, ttl).len() && (#[trigger] lifecycle_events(
                w,
                evs,
                now,
                ttl,
            )[i]).id == id ==> lifecycle_events(w, evs, now, ttl)[i].client.lifetime <= now,
    decreases evs.len(),
{
    if evs.len() > 0 {
        lemma_stale_stays(w, evs.drop_last(), now, ttl, id);
        let mid = lifecycle_events(w, evs.drop_last(), now, ttl);
        let e = evs.last();
        let stepped = lifecycle_step(mid, e, now, ttl);
        let i = choose|i: int| 0 <= i < mid.len() && mid[i].id == id;
        match e.op {
            Operation::ClConnectMessage => {
                assert(has_session(mid, e.uuid) || e.uuid != id);
                assert(stepped[i].id == id);
            },
            _ => {
                assert(stepped[i].id == id);
            },
        }
    }
}

/// Everything expired is gone once the sweep has run.
proof fn lemma_stale_swept(w: Seq<Session>, now: u64, id: Id)
    requires
        forall|i: int|
            0 <= i < w.len() && (#[trigger] w[i]).id == id ==> w[i].client.lifetime <= now,
    ensures
        !has_session(surviving(w, now), id),
{
    lemma_surviving_member(w, now);
    lemma_surviving_alive(w, now);
    assert forall|k: int|
        0 <= k < surviving(w, now).len() implies (#[trigger] surviving(w, now)[k]).id != id by {
        let i = choose|i: int| 0 <= i < w.len() && w[i] == surviving(w, now)[k];
    }
}

/// Law: a session whose expiry has passed, and for which the tick's batch
/// holds no liveness-bearing event, is destroyed by that tick's sweep.
pub proof fn lemma_ttl_expires(w: Seq<Session>, evs: Seq<Event>, now: u64, ttl: u64, id: Id)
    requires
        has_session(w, id),
        forall|i: int|
            0 <= i < w.len() && (#[trigger] w[i]).id == id ==> w[i].client.lifetime <= now,
        forall|k: int| 0 <= k < evs.len() ==> !refreshes(#[trigger] evs[k], id),
    ensures
        !has_session(lifecycle_run(w, evs, now, ttl), id),
{
    lemma_stale_stays(w, evs, now, ttl, id);
    lemma_stale_swept(lifecycle_events(w, evs, now, ttl), now, id);
}

/// While the batch is applied, a session whose expiry lies ahead keeps an
/// expiry that lies ahead, absent an explicit disconnect for it.
proof fn lemma_live_stays(w: Seq<Session>, evs: Seq<Event>, now: u64, ttl: u64, id: Id)
    requires
        ttl > 0,
        now < u64::MAX,
        exists|i: int|
            0 <= i < w.len() && (#[trigger] w[i]).id == id && w[i].client.lifetime > now,
        forall|k: int| 0 <= k < evs.len() ==> !disconnects(#[trigger] evs[k], id),
    ensures
        exists|i: int|
            0 <= i < lifecycle_events(w, evs, now, ttl).len() && (#[trigger] lifecycle_events(
                w,
                evs,
                now,
                ttl,
            )[i]).id == id && lifecycle_events(w, evs, now, ttl)[i].client.lifetime > now,
    decreases evs.len(),
{
    if evs.len() > 0 {
        lemma_live_stays(w, evs.drop_last(), now, ttl, id);
        let mid = lifecycle_events(w, evs.drop_last(), now, ttl);
        let e = evs.last();
        let stepped = lifecycle_step(mid, e, now, ttl);
        let i = choose|i: int|
            0 <= i < mid.len() && (#[trigger] mid[i]).id == id && mid[i].client.lifetime > now;
        match e.op {
            Operation::ClConnectMessage => {
                assert(stepped[i] == mid[i] || stepped == mid.push(
                    fresh_session(e.uuid, expiry_at(now, ttl)),
                ));
                assert(stepped[i] == mid[i]);
            },
            Operation::ClSync => {
                assert(stepped[i].id == id && stepped[i].client.lifetime > now);
            },
            Operation::ClMoveSetPosition { .. } => {
                assert(stepped[i].id == id && stepped[i].client.lifetime > now);
            },
            Operation::DisconnectMessage => {
                assert(e.uuid != id);
                assert(stepped[i] == mid[i]);
            },
            _ => {
                assert(stepped[i] == mid[i]);
            },
        }
        assert(lifecycle_events(w, evs, now, ttl) == stepped);
        assert(0 <= i < stepped.len() && stepped[i].id == id && stepped[i].client.lifetime
            > now);
        assert((lifecycle_events(w, evs, now, ttl)[i]).id == id && lifecycle_events(
            w,
            evs,
            now,
            ttl,
        )[i].client.lifetime > now);
    } else {
        assert(lifecycle_events(w, evs, now, ttl) == w);
        let i = choose|i: int|
            0 <= i < w.len() && (#[trigger] w[i]).id == id && w[i].client.lifetime > now;
        assert((lifecycle_events(w, evs, now, ttl)[i]).id == id && lifecycle_events(
            w,
            evs,
            now,
            ttl,
        )[i].client.lifetime > now);
    }
}

/// Law: a session whose expiry still lies ahead is never destroyed early —
/// it survives the tick unless its client explicitly disconnects (the tick
/// must not be the last representable instant, at which everything
/// expires).
pub proof fn lemma_ttl_no_early_expiry(
    w: Seq<Session>,
    evs: Seq<Event>,
    now: u64,
    ttl: u64,
    id: Id,
)
    requires
        ttl > 0,
        now < u64::MAX,
        exists|i: int|
            0 <= i < w.len() && (#[trigger] w[i]).id == id && w[i].client.lifetime > now,
        forall|k: int| 0 <= k < evs.len() ==> !disconnects(#[trigger] evs[k], id),
    ensures
        has_session(lifecycle_run(w, evs, now, ttl), id),
{
    lemma_live_stays(w, evs, now, ttl, id);
    let we = lifecycle_events(w, evs, now, ttl);
    let i = choose|i: int|
        0 <= i < we.len() && (#[trigger] we[i]).id == id && we[i].client.lifetime > now;
    lemma_surviving_alive(we, now);
    let k = choose|k: int|
        0 <= k < surviving(we, now).len() && #[trigger] surviving(we, now)[k] == we[i];
    assert(surviving(we, now)[k].id == id);
}

/// Applying a batch is applying its two halves in order.
proof fn lemma_lifecycle_events_concat(
    w: Seq<Session>,
    a: Seq<Event>,
    b: Seq<Event>,
    now: u64,
    ttl: u64,
)
    ensures
        lifecycle_events(w, a + b, now, ttl) == lifecycle_events(
            lifecycle_events(w, a, now, ttl),
            b,
            now,
            ttl,
        ),
    decreases b.len(),
{
    if b.len() == 0 {
        assert(a + b =~= a);
    } else {
        lemma_lifecycle_events_concat(w, a, b.drop_last(), now, ttl);
        assert((a + b).drop_last() =~= a + b.drop_last());
        assert((a + b).last() == b.last());
    }
}

/// Law: an explicit disconnect expires its session within the very tick
/// that carries it — provided nothing later in the batch refreshes the
/// session, the tick's sweep destroys it.
pub proof fn lemma_disconnect_removes(
    w: Seq<Session>,
    evs: Seq<Event>,
    now: u64,
    ttl: u64,
    id: Id,
    k: int,
)
    requires
        has_session(w, id),
        0 <= k < evs.len(),
        disconnects(evs[k], id),
        forall|j: int| k < j < evs.len() ==> !refreshes(#[trigger] evs[j], id),
    ensures
        !has_session(lifecycle_run(w, evs, now, ttl), id),
{
    let pre = evs.take(k + 1);
    let post = evs.skip(k + 1);
    assert(pre + post =~= evs);
    lemma_lifecycle_events_concat(w, pre, post, now, ttl);
    assert(pre.drop_last() =~= evs.take(k));
    assert(pre.last() == evs[k]);
    lemma_events_keep_sessions(w, evs.take(k), now, ttl, id);
    let mid = lifecycle_events(w, evs.take(k), now, ttl);
    let after_disc = lifecycle_step(mid, evs[k], now, ttl);
    assert(after_disc == refreshed(mid, id, now));
    assert(lifecycle_events(w, pre, now, ttl) == after_disc);
    let i0 = choose|i: int| 0 <= i < mid.len() && mid[i].id == id;
    assert(after_disc[i0].id == id);
    assert forall|j: int| 0 <= j < post.len() implies !refreshes(#[trigger] post[j], id) by {
        assert(post[j] == evs[k + 1 + j]);
    }
    lemma_stale_stays(after_disc, post, now, ttl, id);
    lemma_stale_swept(lifecycle_events(after_disc, post, now, ttl), now, id);
    assert(lifecycle_events(w, evs, now, ttl) == lifecycle_events(after_disc, post, now, ttl));
}

/// The connection lifecycle system. It owns the client time-to-live: the
/// span of simulated milliseconds a session may go without refreshing
/// traffic before the sweep destroys it.
pub struct Connections {
    ttl: u64,
}

impl Connections {
    /// The time-to-live this system was built with.
    pub closed spec fn ttl(&self) -> u64 {
        self.ttl
    }

    pub fn new(ttl: u64) -> (r: Connections)
        ensures
            r.ttl() == ttl,
    {
        Connections { ttl }
    }

    /// `expiry_at`, computed.
    fn expiry(now: u64, ttl: u64) -> (r: u64)
        ensures
            r == expiry_at(now, ttl),
    {
        if now <= u64::MAX - ttl {
            now + ttl
        } else {
            u64::MAX
        }
    }

    /// Sets the lifetime of the session carrying `id`, if any, to `t`.
    fn refresh(world: &mut World, id: Id, t: u64)
        requires
            old(world).wf(),
        ensures
            final(world).wf(),
            final(world).sessions@ == refreshed(old(world).sessions@, id, t),
    {
        let ghost w0 = world.sessions@;
        let n = world.sessions.len();
        for i in 0..n
            invariant
                n == world.sessions@.len(),
                w0.len() == n,
                forall|k: int| 0 <= k < i ==> world.sessions@[k] == refreshed(w0, id, t)[k],
                forall|k: int| i <= k < n ==> world.sessions@[k] == w0[k],
        {
            if world.sessions[i].id == id {
                let s = world.sessions[i];
                world.sessions.set(
                    i,
                    Session {
                        id: s.id,
                        client: Client { state: s.client.state, lifetime: t },
                        position: s.position,
                        health: s.health,
                    },
                );
            }
        }
        proof {
            assert(world.sessions@ =~= refreshed(w0, id, t));
            assert forall|i: int, j: int|
                0 <= i < j < world.sessions@.len() implies world.sessions@[i].id
                != world.sessions@[j].id by {
                assert(world.sessions@[i].id == w0[i].id);
                assert(world.sessions@[j].id == w0[j].id);
            }
        }
    }

    /// Applies one inbound event to the session store.
    fn apply_event(&self, world: &mut World, ev: &Event, now: u64)
        requires
            old(world).wf(),
        ensures
            final(world).wf(),
            final(world).sessions@ == lifecycle_step(old(world).sessions@, *ev, now, self.ttl()),
    {
        match &ev.op {
            Operation::ClConnectMessage => {
                if !world.contains(ev.uuid) {
                    let expiry = Self::expiry(now, self.ttl);
                    world.sessions.push(
                        Session {
                            id: ev.uuid,
                            client: Client::new(expiry),
                            position: Position(Point3 { x: 0, y: 0, z: 0 }),
                            health: None,
                        },
                    );
                    proof {
                        let w1 = world.sessions@;
                        assert forall|i: int, j: int|
                            0 <= i < j < w1.len() implies w1[i].id != w1[j].id by {
                            if j == w1.len() - 1 {
                                assert(!has_session(w1.drop_last(), ev.uuid));
                            }
                        }
                    }
                }
            },
            Operation::ClSync => {
                Self::refresh(world, ev.uuid, Self::expiry(now, self.ttl));
            },
            Operation::ClMoveSetPosition { .. } => {
                Self::refresh(world, ev.uuid, Self::expiry(now, self.ttl));
            },
            Operation::DisconnectMessage => {
                Self::refresh(world, ev.uuid, now);
            },
            _ => {},
        }
    }

    /// Destroys every session whose expiry has passed as of `now`.
    fn sweep(world: &mut World, now: u64)
        requires
            old(world).wf(),
        ensures
            final(world).wf(),
            final(world).sessions@ == surviving(old(world).sessions@, now),
    {
        let ghost w0 = world.sessions@;
        let mut kept: Vec<Session> = Vec::new();
        let n = world.sessions.len();
        for i in 0..n
            invariant
                n == world.sessions@.len(),
                world.sessions@ == w0,
                kept@ == surviving(w0.take(i as int), now),
        {
            let s = world.sessions[i];
            if s.client.lifetime > now {
                kept.push(s);
            }
            proof {
                assert(w0.take(i + 1).drop_last() =~= w0.take(i as int));
                assert(w0.take(i + 1).last() == w0[i as int]);
            }
        }
        proof {
            assert(w0.take(n as int) =~= w0);
        }
        world.sessions = kept;
        proof {
            lemma_surviving_ids(w0, now);
        }
    }

    /// One tick of the lifecycle system: every event of the batch in arrival
    /// order, then the expiry sweep at the tick's timestamp `now`.
    pub fn run(&self, world: &mut World, events: &EventQueue, now: u64)
        requires
            old(world).wf(),
        ensures
            final(world).wf(),
            final(world).sessions@ == lifecycle_run(
                old(world).sessions@,
                events@,
                now,
                self.ttl(),
            ),
    {
        let ghost w0 = world.sessions@;
        let n = events.len();
        for idx in 0..n
            invariant
                n == events@.len(),
                world.wf(),
                world.sessions@ == lifecycle_events(w0, events@.take(idx as int), now, self.ttl()),
        {
            self.apply_event(world, &events[idx], now);
            proof {
                assert(events@.take(idx + 1).drop_last() =~= events@.take(idx as int));
                assert(events@.take(idx + 1).last() == events@[idx as int]);
            }
        }
        proof {
            assert(events@.take(n as int) =~= events@);
        }
        Self::sweep(world, now);
    }
}

} // verus!
