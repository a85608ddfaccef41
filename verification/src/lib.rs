//! TripleWrapper core library: storage decisions, archive command planning,
//! output parsing and queue bookkeeping, with their contracts.

pub mod text;
pub mod paths;
pub mod error;
pub mod types;
pub mod engine;
pub mod archive;
pub mod queue;
pub mod utils;
pub mod plugin;
pub mod compression;
pub mod disk;
pub mod mount;
pub mod watch;
pub mod checksum;
pub mod integrity;
pub mod config;
pub mod progress;
pub mod cli;
pub mod laws;
