use eternalreckoning_server::net::operation::Operation;
use eternalreckoning_server::networking::error::{Async, NetworkError};
use eternalreckoning_server::networking::reader::receive;
use eternalreckoning_server::networking::server::{join_result, map_result};
use eternalreckoning_server::networking::state::{Address, State};
use eternalreckoning_server::networking::writer::{
    send_plan, writer_poll_step, WriterAction, WriterInput, WriterState,
};
use eternalreckoning_server::simulation::component::Id;

fn addr(host: u128, port: u16) -> Address {
    Address { host, port }
}

#[test]
fn first_connect_assigns_and_forwards() {
    let mut state = State::new();
    let a = addr(1, 10);

    let ev = receive(&mut state, a, Operation::ClConnectMessage)
        .expect("a handshake from an unknown address must be forwarded");

    assert!(matches!(ev.op, Operation::ClConnectMessage));
    assert_eq!(state.resolve(a), Some(ev.uuid));
    assert_eq!(state.address_of(ev.uuid), Some(a));
}

#[test]
fn second_connect_is_ordinary_traffic_under_the_same_identifier() {
    let mut state = State::new();
    let a = addr(1, 10);

    let first = receive(&mut state, a, Operation::ClConnectMessage).unwrap();
    let second = receive(&mut state, a, Operation::ClConnectMessage)
        .expect("a repeated handshake is forwarded like any other traffic");

    assert_eq!(second.uuid, first.uuid);
    assert_eq!(state.resolve(a), Some(first.uuid));
}

#[test]
fn unknown_sender_non_handshake_is_dropped() {
    let mut state = State::new();
    let a = addr(9, 90);

    assert!(receive(&mut state, a, Operation::ClSync).is_none());
    assert!(receive(&mut state, a, Operation::DisconnectMessage).is_none());
    assert_eq!(state.resolve(a), None);
}

#[test]
fn disconnect_evicts_the_registry_entry_eagerly() {
    let mut state = State::new();
    let a = addr(1, 10);
    let ev = receive(&mut state, a, Operation::ClConnectMessage).unwrap();
    let id = ev.uuid;

    let bye = receive(&mut state, a, Operation::DisconnectMessage)
        .expect("a known sender's disconnect is still forwarded");

    assert_eq!(bye.uuid, id);
    assert!(matches!(bye.op, Operation::DisconnectMessage));
    assert_eq!(state.resolve(a), None);
    assert_eq!(state.address_of(id), None);
}

#[test]
fn known_sender_traffic_is_forwarded_and_refreshable() {
    let mut state = State::new();
    let a = addr(1, 10);
    let id = receive(&mut state, a, Operation::ClConnectMessage).unwrap().uuid;

    let ev = receive(&mut state, a, Operation::ClSync).unwrap();
    assert_eq!(ev.uuid, id);
    assert!(matches!(ev.op, Operation::ClSync));
}

#[test]
fn writer_drops_an_unknown_identifier_without_crashing() {
    let state = State::new();

    let plan = send_plan(&state, Id(42), Operation::ClSync);

    assert!(plan.is_none());
}

#[test]
fn writer_routes_a_known_identifier_to_its_address() {
    let mut state = State::new();
    let a = addr(3, 30);
    state.insert(a, Id(5)).unwrap();

    let (dest, op) = send_plan(&state, Id(5), Operation::DisconnectMessage)
        .expect("a registered identifier must be routable");

    assert_eq!(dest, a);
    assert!(matches!(op, Operation::DisconnectMessage));
}

#[test]
fn the_writer_machine_keeps_one_send_in_flight() {
    let mut state = State::new();
    let a = addr(3, 30);
    state.insert(a, Id(5)).unwrap();

    // an item pulled while idle moves the writer to sending
    let (phase, action) = writer_poll_step(
        &state,
        WriterState::Idle,
        WriterInput::ItemReady(Id(5), Operation::ClSync),
    );
    assert_eq!(phase, WriterState::Sending);
    match action {
        WriterAction::Transmit(dest, op) => {
            assert_eq!(dest, a);
            assert!(matches!(op, Operation::ClSync));
        }
        other => panic!("expected a transmit, got {:?}", other),
    }

    // only a completed send brings it back to idle
    let (phase, action) = writer_poll_step(&state, phase, WriterInput::SendPending);
    assert_eq!(phase, WriterState::Sending);
    assert!(matches!(action, WriterAction::Suspend));
    let (phase, action) = writer_poll_step(&state, phase, WriterInput::SendCompleted);
    assert_eq!(phase, WriterState::Idle);
    assert!(matches!(action, WriterAction::Proceed));

    // an unknown identifier is dropped, not sent
    let (phase, action) = writer_poll_step(
        &state,
        phase,
        WriterInput::ItemReady(Id(9), Operation::ClSync),
    );
    assert_eq!(phase, WriterState::Sending);
    assert!(matches!(action, WriterAction::DropUnknown(Id(9))));

    // a closed channel ends the loop
    let (_, action) = writer_poll_step(&state, WriterState::Idle, WriterInput::ChannelClosed);
    assert!(matches!(action, WriterAction::Fail));
}

#[test]
fn map_result_translates_each_verdict() {
    assert_eq!(map_result(Ok(Async::NotReady)), Ok(Async::NotReady));
    assert_eq!(map_result(Ok(Async::Ready)), Ok(Async::Ready));
    assert_eq!(map_result(Err(NetworkError::RebuildRequired)), Ok(Async::Ready));
    let fatal = map_result(Err(NetworkError::FatalError("socket closed".to_string())));
    assert_eq!(fatal, Err("socket closed".to_string()));
}

#[test]
fn join_result_prefers_the_reader_error_and_joins_readiness() {
    let e1: Result<Async, String> = Err("reader".to_string());
    let e2: Result<Async, String> = Err("writer".to_string());
    assert_eq!(join_result(e1.clone(), e2.clone()), Err("reader".to_string()));
    assert_eq!(join_result(Ok(Async::Ready), e2), Err("writer".to_string()));
    assert_eq!(join_result(Ok(Async::Ready), Ok(Async::NotReady)), Ok(Async::Ready));
    assert_eq!(join_result(Ok(Async::NotReady), Ok(Async::Ready)), Ok(Async::Ready));
    assert_eq!(join_result(Ok(Async::NotReady), Ok(Async::NotReady)), Ok(Async::NotReady));
}
