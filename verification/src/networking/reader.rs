use vstd::prelude::*;
use crate::net::operation::Operation;
use crate::networking::state::{addr_for, has_addr, has_id, id_for, lemma_inverse, Address, State};
use crate::simulation::component::Id;
use crate::simulation::event::Event;

verus! {

/// Handles one decoded inbound datagram, resolving the sender through the
/// registry exactly as the protocol demands:
///
/// - a known sender's message is forwarded under its identifier, and an
///   explicit disconnect additionally evicts its registry entry eagerly;
/// - an unknown sender is admitted only through a connect request, which
///   assigns it a fresh identifier; anything else from an unknown sender
///   is dropped as spoofed or stale traffic.
///
/// The returned event, if any, is what the reader forwards to the
/// simulation's inbound channel.
pub fn receive(state: &mut State, addr: Address, op: Operation) -> (r: Option<Event>)
    requires
        old(state).wf(),
    ensures
        final(state).wf(),
        // a known sender is always forwarded, under the identifier the
        // registry already held for its address
        has_addr(old(state)@, addr) ==> (r matches Some(ev) && Some(ev.uuid) == id_for(
            old(state)@,
            addr,
        ) && ev.op == op),
        // ordinary traffic from a known sender leaves the registry alone —
        // a repeated connect request in particular assigns nothing new
        has_addr(old(state)@, addr) && !(op is DisconnectMessage) ==> final(state)@ == old(
            state,
        )@,
        // an explicit disconnect evicts exactly the sender's entry
        has_addr(old(state)@, addr) && op is DisconnectMessage ==> ({
            &&& id_for(old(state)@, addr) matches Some(id)
            &&& !has_addr(final(state)@, addr)
            &&& !has_id(final(state)@, id)
            &&& forall|a: Address|
                a != addr ==> id_for(final(state)@, a) == id_for(old(state)@, a)
            &&& forall|x: Id| x != id ==> addr_for(final(state)@, x) == addr_for(old(state)@, x)
        }),
        // an unknown sender's connect request assigns a fresh identifier;
        // only a colliding random draw is refused, and then nothing changes
        !has_addr(old(state)@, addr) && op is ClConnectMessage ==> ({
            ||| (r matches Some(ev) && ev.op == op && !has_id(old(state)@, ev.uuid)
                && final(state)@ == old(state)@.push((addr, ev.uuid)) && id_for(
                final(state)@,
                addr,
            ) == Some(ev.uuid))
            ||| (r is None && final(state)@ == old(state)@)
        }),
        // anything else from an unknown sender is dropped
        !has_addr(old(state)@, addr) && !(op is ClConnectMessage) ==> r is None,
        // nothing was forwarded: then the registry was not touched either
        r is None ==> final(state)@ == old(state)@,
{
    let resolved = state.resolve(addr);
    match resolved {
        Some(id) => {
            if matches!(op, Operation::DisconnectMessage) {
                proof {
                    lemma_inverse(*state, addr);
                }
                state.remove(id);
            }
            Some(Event { uuid: id, op })
        },
        None => {
            match &op {
                Operation::ClConnectMessage => {
                    match state.assign(addr) {
                        Ok(id) => Some(Event { uuid: id, op }),
                        Err(_) => None,
                    }
                },
                _ => None,
            }
        },
    }
}

} // verus!
