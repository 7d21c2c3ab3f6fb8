//! Preparing agents on this machine.

pub mod agents;
pub mod batch;
pub mod binary;
pub mod cache;
pub mod environment;
pub mod locks;
pub mod removal;
