//! Addon catalog: reconciles game addon packages found on disk with a
//! catalog keyed by content hash, and tracks workshop metadata.
pub mod flags;
pub mod hash;
pub mod text;
pub mod catalog;
pub mod workshop;
pub mod ids;
pub mod scan;
pub mod scanner;
pub mod tags;
pub mod config;
pub mod events;
