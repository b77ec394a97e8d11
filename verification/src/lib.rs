//! Worker execution runtime: a lifecycle orchestrator for sandboxed script
//! instances. The runtime keeps a bounded, time-expiring registry of live
//! instances, routes fetch/terminate/list operations to them, and enforces
//! per-instance deadlines through a watchdog whose decision logic is verified.

pub mod buffer;
pub mod codec;
pub mod engine;
pub mod interface;
pub mod kv;
pub mod registry;
pub mod runtime;
pub mod types;
pub mod watchdog;
