//! The gateway's HTTP endpoints: what they decide, apart from the I/O.
pub mod health;

pub use crate::handler::AppState;
