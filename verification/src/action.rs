pub mod event;

pub use event::ActionEvent;
pub use event::ConnectionEvent;
pub use event::MovementEvent;
pub use event::Update;
pub use event::UpdateEvent;
