use vstd::prelude::*;
use crate::action::event::{ActionEvent, Update};
use crate::game::component::{Client, Position};
use crate::game::system::connections::{connections_events, Connections};
use crate::game::system::playermovement::{moved_entities, PlayerMovement};
use crate::game::system::updatesender::{broadcast_item, UpdateSender};

verus! {

/// One entity of the action pipeline: whose it is and where it stands.
#[derive(Clone, Copy, Debug, PartialEq, Eq, Structural)]
pub struct Entity {
    pub client: Client,
    pub position: Position,
}

/// The entity store of the action pipeline, in creation order.
pub struct GameWorld {
    pub entities: Vec<Entity>,
}

/// The entity store a whole tick of this pipeline leaves behind: the
/// connection events applied in arrival order, then the batch's movement.
pub open spec fn game_tick_world(w: Seq<Entity>, evs: Seq<ActionEvent>) -> Seq<Entity> {
    moved_entities(connections_events(w, evs), evs)
}

/// The action pipeline: the entity store with its three systems, run in
/// order once per tick.
pub struct Simulation {
    world: GameWorld,
    connections: Connections,
    player_movement: PlayerMovement,
    update_sender: UpdateSender,
}

impl Simulation {
    /// The entity store, as the mathematics sees it.
    pub closed spec fn world_model(&self) -> Seq<Entity> {
        self.world.entities@
    }

    /// Read access to the entity store, for the host and for tests.
    pub fn world(&self) -> (r: &GameWorld)
        ensures
            r.entities@ == self.world_model(),
    {
        &self.world
    }

    /// One tick: consume the batch and owe every client one movement
    /// update per entity, receivers iterated innermost.
    pub fn tick(&mut self, events: &Vec<ActionEvent>) -> (out: Vec<Update>)
        ensures
            final(self).world_model() == game_tick_world(old(self).world_model(), events@),
            out@.len() == final(self).world_model().len() * final(self).world_model().len(),
            forall|i: int, j: int|
                0 <= i < final(self).world_model().len() && 0 <= j
                    < final(self).world_model().len() ==> out@[i * final(self).world_model().len()
                    + j] == #[trigger] broadcast_item(final(self).world_model(), i, j),
    {
        self.connections.run(&mut self.world, events);
        self.player_movement.run(&mut self.world, events);
        self.update_sender.run(&self.world)
    }
}

/// Builds the action pipeline with an empty entity store.
pub fn build_simulation() -> (r: Simulation)
    ensures
        r.world_model() == Seq::<Entity>::empty(),
{
    Simulation {
        world: GameWorld { entities: Vec::new() },
        connections: Connections,
        player_movement: PlayerMovement,
        update_sender: UpdateSender::new(),
    }
}

} // verus!
