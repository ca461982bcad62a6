//! Key cards of the clients, by client id.

pub mod directory;

pub use directory::{chunk_size, Directory, CHUNKS};
