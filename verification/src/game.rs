pub mod component;
pub mod system;

mod game;

pub use game::build_simulation;
pub use game::game_tick_world;
pub use game::Entity;
pub use game::GameWorld;
pub use game::Simulation;
