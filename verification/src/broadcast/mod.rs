//! The total order that servers put roots to, and the frames that speak to
//! the services which provide it.

pub mod bftsmart;
pub mod broadcast;
pub mod hotstuff;
pub mod loopback;
pub mod wire;

pub use broadcast::Broadcast;
pub use loopback::LoopBack;
