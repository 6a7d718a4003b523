//! Live-update subscription core: an append-only record store, a lossy
//! broadcast side-channel, and a coordinator that merges a backlog snapshot
//! with the live event feed into one duplicate-free, cursor-ordered stream.

pub mod broker;
pub mod cursor;
pub mod player;
pub mod service;
pub mod store;
pub mod subscription;
