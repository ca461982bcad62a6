//! Verified core of a broker-and-server pipeline for Byzantine atomic broadcast:
//! the batch data model, witness certificates, and the decisions that brokers
//! and servers take while a batch travels from submission to delivery.

pub mod batch;
pub mod broadcast;
pub mod brokers;
mod chance;
pub mod crypto;
pub mod directory;
pub mod membership;
pub mod passepartout;
pub mod server;
pub mod sorting;

pub use brokers::LoadBroker;
pub use batch::{Batch, BatchError, CompressedBatch, Message, Payload};
pub use directory::Directory;
pub use membership::{Certificate, CertificateError, Membership};
pub use passepartout::Passepartout;
pub use server::Server;
