use eternalreckoning_server::networking::state::{Address, RegistryError, State};
use eternalreckoning_server::simulation::component::Id;

fn addr(host: u128, port: u16) -> Address {
    Address { host, port }
}

#[test]
fn assign_gives_distinct_identifiers_and_resolve_finds_them() {
    let mut state = State::new();
    let a1 = addr(1, 10);
    let a2 = addr(2, 20);

    let id1 = state.assign(a1).expect("fresh address must be assignable");
    let id2 = state.assign(a2).expect("fresh address must be assignable");

    assert_ne!(id1, id2);
    assert_eq!(state.resolve(a1), Some(id1));
    assert_eq!(state.resolve(a2), Some(id2));
    assert_eq!(state.address_of(id1), Some(a1));
    assert_eq!(state.address_of(id2), Some(a2));
}

#[test]
fn resolve_returns_the_identifier_until_removal() {
    let mut state = State::new();
    let a1 = addr(1, 10);
    let a2 = addr(2, 20);
    let id1 = state.assign(a1).unwrap();
    let id2 = state.assign(a2).unwrap();

    state.remove(id1);

    assert_eq!(state.resolve(a1), None);
    assert_eq!(state.address_of(id1), None);
    // the other binding is untouched
    assert_eq!(state.resolve(a2), Some(id2));
    assert_eq!(state.address_of(id2), Some(a2));
}

#[test]
fn assign_refuses_an_address_already_in_use() {
    let mut state = State::new();
    let a1 = addr(7, 70);
    let id1 = state.assign(a1).unwrap();

    match state.assign(a1) {
        Err(RegistryError::AddressInUse) => {}
        other => panic!("expected AddressInUse, got {:?}", other),
    }
    // the earlier binding still stands
    assert_eq!(state.resolve(a1), Some(id1));
}

#[test]
fn insert_reports_which_half_of_the_pair_is_taken() {
    let mut state = State::new();
    let a1 = addr(1, 1);
    let a2 = addr(2, 2);

    assert!(state.insert(a1, Id(7)).is_ok());
    assert_eq!(state.insert(a2, Id(7)), Err(RegistryError::IdentifierInUse));
    assert_eq!(state.insert(a1, Id(8)), Err(RegistryError::AddressInUse));
    assert_eq!(state.resolve(a1), Some(Id(7)));
    assert_eq!(state.resolve(a2), None);
}

#[test]
fn removing_an_unknown_identifier_changes_nothing() {
    let mut state = State::new();
    let a1 = addr(1, 1);
    let id1 = state.assign(a1).unwrap();

    state.remove(Id(id1.0.wrapping_add(1)));

    assert_eq!(state.resolve(a1), Some(id1));
}
