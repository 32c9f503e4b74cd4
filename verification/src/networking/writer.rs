use vstd::prelude::*;
use crate::net::operation::Operation;
use crate::networking::state::{addr_for, has_id, Address, State};
use crate::simulation::component::Id;

verus! {

/// The writer's routing decision for one outbound update: the destination
/// address the registry holds for the identifier, or nothing when the
/// identifier is no longer registered — such an update is dropped with a
/// warning and never stalls or crashes the writer.
pub fn send_plan(state: &State, client: Id, op: Operation) -> (r: Option<(Address, Operation)>)
    ensures
        r matches Some(route) ==> addr_for(state@, client) == Some(route.0) && route.1 == op,
        r is None <==> !has_id(state@, client),
        r is None <==> addr_for(state@, client) is None,
{
    match state.address_of(client) {
        Some(addr) => Some((addr, op)),
        None => None,
    }
}

/// Where the writer stands: waiting for an outbound item, or finishing the
/// one send it has in flight.
#[derive(Clone, Copy, Debug, PartialEq, Eq, Structural)]
pub enum WriterState {
    Idle,
    Sending,
}

/// What the writer's poll observes. The first two can only be seen while
/// sending, the last three only while idle.
#[derive(Debug)]
pub enum WriterInput {
    SendCompleted,
    SendPending,
    ItemReady(Id, Operation),
    ChannelEmpty,
    ChannelClosed,
}

/// What the writer must do next.
#[derive(Debug)]
pub enum WriterAction {
    /// Put exactly this message on the wire to exactly this address.
    Transmit(Address, Operation),
    /// Warn and move on: the identifier is no longer registered.
    DropUnknown(Id),
    /// Keep polling.
    Proceed,
    /// Nothing to do until woken again.
    Suspend,
    /// The outbound channel is gone; the writer's loop is over.
    Fail,
}

/// One step of the writer's state machine: an item pulled while idle moves
/// the writer to the sending state before anything else is pulled — the
/// single-send-in-flight discipline — and only a completed send brings it
/// back to idle. The host performs the returned action and reports what it
/// observed next.
pub fn writer_poll_step(registry: &State, phase: WriterState, input: WriterInput) -> (r: (
    WriterState,
    WriterAction,
))
    requires
        phase is Idle ==> !(input is SendCompleted || input is SendPending),
        phase is Sending ==> input is SendCompleted || input is SendPending,
    ensures
        match input {
            WriterInput::SendCompleted => r == (WriterState::Idle, WriterAction::Proceed),
            WriterInput::SendPending => r == (WriterState::Sending, WriterAction::Suspend),
            WriterInput::ItemReady(client, op) => ({
                &&& r.0 is Sending
                &&& match addr_for(registry@, client) {
                    Some(a) => r.1 == WriterAction::Transmit(a, op),
                    None => r.1 == WriterAction::DropUnknown(client),
                }
            }),
            WriterInput::ChannelEmpty => r == (WriterState::Idle, WriterAction::Suspend),
            WriterInput::ChannelClosed => r == (WriterState::Idle, WriterAction::Fail),
        },
{
    match input {
        WriterInput::SendCompleted => (WriterState::Idle, WriterAction::Proceed),
        WriterInput::SendPending => (WriterState::Sending, WriterAction::Suspend),
        WriterInput::ItemReady(client, op) => {
            match send_plan(registry, client, op) {
                Some(route) => (WriterState::Sending, WriterAction::Transmit(route.0, route.1)),
                None => (WriterState::Sending, WriterAction::DropUnknown(client)),
            }
        },
        WriterInput::ChannelEmpty => (WriterState::Idle, WriterAction::Suspend),
        WriterInput::ChannelClosed => (WriterState::Idle, WriterAction::Fail),
    }
}

} // verus!
