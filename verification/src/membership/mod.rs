//! The servers, and certificates signed by sets of them.

pub mod bitmap;
pub mod certificate;
pub mod membership;

pub use certificate::{Certificate, CertificateError};
pub use membership::Membership;
