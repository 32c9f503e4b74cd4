use eternalreckoning_server::net::operation::{EntityComponent, Operation, Point3};
use eternalreckoning_server::simulation::build_simulation;
use eternalreckoning_server::simulation::component::{Client, ClientState, Health, Id, Position};
use eternalreckoning_server::simulation::event::Event;
use eternalreckoning_server::simulation::system::updatesender::UpdateSender;
use eternalreckoning_server::simulation::world::{Session, World};

fn connect(id: u128) -> Event {
    Event { uuid: Id(id), op: Operation::ClConnectMessage }
}

fn sync(id: u128) -> Event {
    Event { uuid: Id(id), op: Operation::ClSync }
}

fn disconnect(id: u128) -> Event {
    Event { uuid: Id(id), op: Operation::DisconnectMessage }
}

fn move_to(id: u128, x: f64, y: f64, z: f64) -> Event {
    Event {
        uuid: Id(id),
        op: Operation::ClMoveSetPosition {
            pos: Point3 { x: x.to_bits(), y: y.to_bits(), z: z.to_bits() },
        },
    }
}

fn point(x: f64, y: f64, z: f64) -> Point3 {
    Point3 { x: x.to_bits(), y: y.to_bits(), z: z.to_bits() }
}

#[test]
fn a_session_lives_exactly_its_ttl_and_not_less() {
    let mut sim = build_simulation(500);
    sim.tick(&vec![connect(1)], 0);

    // one tick before the boundary the session is still there
    sim.tick(&vec![], 499);
    assert_eq!(sim.world().sessions.len(), 1);

    // at the boundary (expiry <= now) it is destroyed
    sim.tick(&vec![], 500);
    assert_eq!(sim.world().sessions.len(), 0);
}

#[test]
fn liveness_traffic_refreshes_the_ttl() {
    let mut sim = build_simulation(500);
    sim.tick(&vec![connect(1)], 0);

    sim.tick(&vec![sync(1)], 400);  // expiry moves to 900
    sim.tick(&vec![], 899);
    assert_eq!(sim.world().sessions.len(), 1);

    sim.tick(&vec![], 900);
    assert_eq!(sim.world().sessions.len(), 0);
}

#[test]
fn events_of_one_tick_apply_in_arrival_order() {
    let mut sim = build_simulation(500);
    let batch = vec![
        connect(1),
        move_to(1, 5.0, 6.0, 7.0),
        move_to(1, 1.0, 2.0, 3.0),
    ];

    sim.tick(&batch, 0);

    let sessions = &sim.world().sessions;
    assert_eq!(sessions.len(), 1);
    assert_eq!(sessions[0].id, Id(1));
    assert_eq!(sessions[0].position, Position(point(1.0, 2.0, 3.0)));
}

#[test]
fn a_connecting_session_is_acknowledged_and_then_connected() {
    let mut sim = build_simulation(500);

    let out = sim.tick(&vec![connect(1)], 0);

    assert_eq!(out.len(), 1);
    assert_eq!(out[0].0, Id(1));
    match &out[0].1 {
        Operation::SvConnectResponse { uuid } => assert_eq!(*uuid, Id(1)),
        other => panic!("expected a connection acknowledgment, got {:?}", other),
    }
    assert_eq!(sim.world().sessions[0].client.state, ClientState::Connected);
}

#[test]
fn snapshots_round_trip_a_movement_to_the_other_client_only() {
    let mut sim = build_simulation(500);
    sim.tick(&vec![connect(1), connect(2)], 0);

    // both sessions are connected now; move client 1
    let out = sim.tick(&vec![move_to(1, 1.0, 2.0, 3.0)], 10);

    assert_eq!(out.len(), 2);

    // the snapshot addressed to client 2 carries client 1's new position
    let to_other = out.iter().find(|u| u.0 == Id(2)).expect("client 2 is owed a snapshot");
    let updates = match &to_other.1 {
        Operation::SvUpdateWorld { updates } => updates,
        other => panic!("expected a world snapshot, got {:?}", other),
    };
    let entry = updates.iter().find(|e| e.uuid == Id(1)).expect("client 1 appears in it");
    assert_eq!(entry.data, vec![EntityComponent::Position(point(1.0, 2.0, 3.0))]);

    // the snapshot addressed to client 1 omits its own position
    let to_self = out.iter().find(|u| u.0 == Id(1)).unwrap();
    let updates = match &to_self.1 {
        Operation::SvUpdateWorld { updates } => updates,
        other => panic!("expected a world snapshot, got {:?}", other),
    };
    let own = updates.iter().find(|e| e.uuid == Id(1)).expect("its own entry is still listed");
    assert!(own.data.iter().all(|c| !matches!(c, EntityComponent::Position(_))));
    // and it does carry the other client's position
    let other_entry = updates.iter().find(|e| e.uuid == Id(2)).unwrap();
    assert!(other_entry.data.iter().any(|c| matches!(c, EntityComponent::Position(_))));
}

#[test]
fn a_disconnect_removes_the_session_within_its_tick() {
    let mut sim = build_simulation(500);
    sim.tick(&vec![connect(1), connect(2)], 0);

    let out = sim.tick(&vec![disconnect(1)], 10);

    // only client 2 is left, and only it is owed an update
    assert_eq!(sim.world().sessions.len(), 1);
    assert_eq!(sim.world().sessions[0].id, Id(2));
    assert_eq!(out.len(), 1);
    assert_eq!(out[0].0, Id(2));

    // and its snapshot no longer mentions client 1 at all
    match &out[0].1 {
        Operation::SvUpdateWorld { updates } => {
            assert!(updates.iter().all(|e| e.uuid != Id(1)));
        }
        other => panic!("expected a world snapshot, got {:?}", other),
    }
}

#[test]
fn a_silent_client_is_kept_alive_by_anothers_traffic_only_for_itself() {
    let mut sim = build_simulation(500);
    sim.tick(&vec![connect(1), connect(2)], 0);

    // only client 2 refreshes; client 1 expires at its own boundary
    sim.tick(&vec![sync(2)], 400);
    sim.tick(&vec![], 500);

    let sessions = &sim.world().sessions;
    assert_eq!(sessions.len(), 1);
    assert_eq!(sessions[0].id, Id(2));
}

#[test]
fn known_health_is_shown_to_everyone_including_the_owner() {
    let mut world = World {
        sessions: vec![
            Session {
                id: Id(1),
                client: Client { state: ClientState::Connected, lifetime: 100 },
                position: Position(point(4.0, 0.0, 0.0)),
                health: Some(Health(80)),
            },
            Session {
                id: Id(2),
                client: Client { state: ClientState::Connected, lifetime: 100 },
                position: Position(point(0.0, 0.0, 0.0)),
                health: None,
            },
        ],
    };

    let out = UpdateSender::new().run(&mut world);

    assert_eq!(out.len(), 2);
    // client 2 sees client 1's position and health, in that order
    let updates = match &out[1].1 {
        Operation::SvUpdateWorld { updates } => updates,
        other => panic!("expected a world snapshot, got {:?}", other),
    };
    assert_eq!(
        updates[0].data,
        vec![
            EntityComponent::Position(point(4.0, 0.0, 0.0)),
            EntityComponent::Health(80),
        ]
    );
    // client 1's own entry in its own snapshot still shows its health
    let updates = match &out[0].1 {
        Operation::SvUpdateWorld { updates } => updates,
        other => panic!("expected a world snapshot, got {:?}", other),
    };
    assert_eq!(updates[0].data, vec![EntityComponent::Health(80)]);
}

#[test]
fn an_expiry_saturates_at_the_end_of_representable_time() {
    let mut sim = build_simulation(u64::MAX);
    sim.tick(&vec![connect(1)], 5);

    // now + ttl overflows, so the expiry saturates instead of wrapping
    sim.tick(&vec![], u64::MAX - 1);
    assert_eq!(sim.world().sessions.len(), 1);

    // at the last representable instant every session expires
    sim.tick(&vec![], u64::MAX);
    assert_eq!(sim.world().sessions.len(), 0);
}

#[test]
fn an_empty_tick_of_an_empty_world_owes_nothing() {
    let mut sim = build_simulation(500);
    let out = sim.tick(&vec![], 0);
    assert!(out.is_empty());
    assert!(sim.world().sessions.is_empty());
}
