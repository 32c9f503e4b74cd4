use eternalreckoning_server::action::event::{
    ActionEvent, ConnectionEvent, MovementEvent, Update, UpdateEvent,
};
use eternalreckoning_server::game::build_simulation;
use eternalreckoning_server::net::operation::Point3;
use eternalreckoning_server::simulation::component::Id;

fn connected(id: u128) -> ActionEvent {
    ActionEvent::ConnectionEvent(ConnectionEvent::ClientConnected(Id(id)))
}

fn disconnected(id: u128) -> ActionEvent {
    ActionEvent::ConnectionEvent(ConnectionEvent::ClientDisconnected(Id(id)))
}

fn moved(id: u128, x: f64, y: f64, z: f64) -> ActionEvent {
    ActionEvent::MovementEvent(MovementEvent {
        uuid: Id(id),
        position: Point3 { x: x.to_bits(), y: y.to_bits(), z: z.to_bits() },
    })
}

#[test]
fn connections_spawn_and_disconnect_deletes_the_first_match() {
    let mut game = build_simulation();
    game.tick(&vec![connected(1), connected(2)]);
    assert_eq!(game.world().entities.len(), 2);

    game.tick(&vec![disconnected(1)]);
    let entities = &game.world().entities;
    assert_eq!(entities.len(), 1);
    assert_eq!(entities[0].client.0, Id(2));
}

#[test]
fn this_pipeline_spawns_one_entity_per_connection_event() {
    let mut game = build_simulation();
    game.tick(&vec![connected(1), connected(1)]);
    assert_eq!(game.world().entities.len(), 2);
}

#[test]
fn the_last_movement_event_of_a_tick_wins() {
    let mut game = build_simulation();
    let out = game.tick(&vec![
        connected(1),
        moved(1, 5.0, 5.0, 5.0),
        moved(1, 1.0, 2.0, 3.0),
    ]);

    let p = game.world().entities[0].position.0;
    assert_eq!(p, Point3 { x: 1.0f64.to_bits(), y: 2.0f64.to_bits(), z: 3.0f64.to_bits() });

    // the single entity is broadcast to itself
    assert_eq!(out.len(), 1);
    assert_eq!(
        out[0],
        Update {
            uuid: Id(1),
            event: UpdateEvent::MovementEvent(MovementEvent { uuid: Id(1), position: p }),
        }
    );
}

#[test]
fn every_position_is_broadcast_to_every_client() {
    let mut game = build_simulation();
    let out = game.tick(&vec![connected(1), connected(2), moved(2, 4.0, 0.0, 0.0)]);

    // two entities: one update per (entity, receiver) pair, receivers innermost
    assert_eq!(out.len(), 4);
    let p2 = Point3 { x: 4.0f64.to_bits(), y: 0.0f64.to_bits(), z: 0.0f64.to_bits() };
    let origin = Point3 { x: 0.0f64.to_bits(), y: 0.0f64.to_bits(), z: 0.0f64.to_bits() };

    // about entity 1 (still at the origin), to receivers 1 and 2
    assert_eq!(out[0].uuid, Id(1));
    assert_eq!(out[1].uuid, Id(2));
    let UpdateEvent::MovementEvent(m) = out[0].event;
    assert_eq!(m.uuid, Id(1));
    assert_eq!(m.position, origin);

    // about entity 2 (moved), to receivers 1 and 2
    assert_eq!(out[2].uuid, Id(1));
    assert_eq!(out[3].uuid, Id(2));
    let UpdateEvent::MovementEvent(m) = out[3].event;
    assert_eq!(m.uuid, Id(2));
    assert_eq!(m.position, p2);
}
