pub mod error;
pub mod reader;
pub mod server;
pub mod state;
pub mod writer;

pub use state::State;
