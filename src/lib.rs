//! Per-frame world resolution, object classification and aim-lock decisions
//! for an overlay that reads a host process's memory through probed reads.

pub mod memory;
pub mod walk;
pub mod world;
pub mod classify;
pub mod aim;
