//! Installing, running and serving Agent Client Protocol agents.

pub mod commands;
pub mod digest;
pub mod failure;
pub mod installer;
pub mod order;
pub mod paths;
pub mod registry;
pub mod runner;
pub mod serve;
pub mod server;
pub mod text;
pub mod yolo;
