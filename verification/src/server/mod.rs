//! What a server decides while it accepts, witnesses and delivers batches.

pub mod order_statement;
pub mod parking;
pub mod server;
pub mod session;
pub mod witness_statement;

pub use order_statement::OrderStatement;
pub use parking::Parking;
pub use server::{Delivery, ProcessError, ServeError, Server};
pub use session::{ServeAction, ServeEvent, ServeState};
pub use witness_statement::WitnessStatement;
