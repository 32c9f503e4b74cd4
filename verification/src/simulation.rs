pub mod component;
pub mod event;
pub mod system;
pub mod world;

mod simulation;

pub use event::Event;
pub use event::EventQueue;
pub use simulation::build_simulation;
pub use simulation::lemma_disconnect_scenario;
pub use simulation::lemma_move_ordering;
pub use simulation::lemma_tick_ids;
pub use simulation::tick_mid;
pub use simulation::tick_world;
pub use simulation::Simulation;
