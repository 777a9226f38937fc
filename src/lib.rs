//! Monitoring engine for on-chain contract activity: rule evaluation over
//! decoded ABI values, event rendering, resumable pollers and the registry
//! of running monitors.

pub mod primitives;
pub mod abi;
pub mod filter;
pub mod events;
pub mod poller;
pub mod cursor;
pub mod notifications;
pub mod registry;
