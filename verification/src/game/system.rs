pub mod connections;
pub mod playermovement;
pub mod updatesender;

pub use connections::Connections;
pub use playermovement::PlayerMovement;
pub use updatesender::UpdateSender;
