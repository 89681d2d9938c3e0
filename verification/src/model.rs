//! The in-memory data model: tracks with bounded caching and drop
//! semantics, the origin namespace, and the per-subscription scheduler.

pub mod origin;
pub mod scheduler;
pub mod track;
