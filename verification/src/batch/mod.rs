//! Batches of client payloads and their wire form.

pub mod batch;
pub mod broadcast_statement;
pub mod compressed_batch;
pub mod laws;
pub mod payload;
pub mod reduction_statement;
pub mod verify;

pub use batch::{Batch, BatchError};
pub use broadcast_statement::BroadcastStatement;
pub use compressed_batch::CompressedBatch;
pub use payload::{Message, Payload, NIBBLE, NULL_ID};
pub use reduction_statement::ReductionStatement;
pub use verify::Audit;
