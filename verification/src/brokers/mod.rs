//! What a broker decides while it drives a batch through the servers.

pub mod load_broker;
pub mod submission;

pub use load_broker::{gathered, LoadBroker};
pub use submission::{SubmitAction, SubmitEvent, SubmitState, Submission};
