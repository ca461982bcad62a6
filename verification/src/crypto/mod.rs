//! Plain-value stand-ins for identities, keys and signatures.

pub mod header;
pub mod identity;
pub mod keys;

pub use header::Header;
pub use identity::{Identity, Order};
pub use keys::{KeyCard, MultiSignature, Root, Signature};
