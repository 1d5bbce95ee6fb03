//! Component installation planner for a design-system toolkit.
//!
//! The library turns "install component X into project Y" into a
//! deterministic, inspectable set of file operations: a registry of
//! component metadata, a pluggable target layout, a pure plan generator
//! with conflict detection and content checksums, the merge semantics of
//! the plan executor, and a JSON codec for plans and result envelopes.
//! All file system access is left to the caller; everything here is pure.

pub mod state;
pub mod strutil;
pub mod keyboard;
pub mod contracts;
pub mod plan;
pub mod checksum;
pub mod layout;
pub mod registry;
pub mod generate;
pub mod json;
pub mod merge;
pub mod catalog;
pub mod theme;
pub mod envelope;
pub mod registry_codec;
