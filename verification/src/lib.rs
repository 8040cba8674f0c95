//! Verified core of a NAS video deduplication daemon: data model, state table,
//! configuration checks, filters, queue rules and the pure pipeline decisions.

pub mod digest;
pub mod text;
pub mod path;
pub mod model;
pub mod state;
pub mod repo;
pub mod config;
pub mod busy;
pub mod recovery;
pub mod scheduler;
pub mod scan;
pub mod filter;
pub mod fs;
pub mod events;
pub mod throttle;
pub mod dedupe;
pub mod pipeline;
pub mod hash;
pub mod handler;
