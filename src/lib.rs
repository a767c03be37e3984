//! A live price feed: venue records are normalized into one event shape,
//! fanned out through a bounded, lossy hub, and each venue's session is
//! driven by a reconnecting state machine.

pub mod decimal;
pub mod hub;
pub mod normalize;
pub mod supervisor;
pub mod types;
