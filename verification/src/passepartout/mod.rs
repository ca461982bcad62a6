//! The participants of a whole system, kept in one place.

pub mod passepartout;

pub use passepartout::Passepartout;
