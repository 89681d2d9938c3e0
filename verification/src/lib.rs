//! A verified media-over-QUIC transport library.
//!
//! Broadcasts are named collections of tracks; each track carries an ordered
//! sequence of groups of frames.  This crate holds the wire codec for the two
//! protocol families, the path namespace, the in-memory track/origin fan-out
//! model with bounded caching and drop-on-lag semantics, the keyframe-driven
//! media container, and the JSON catalog that describes the available tracks.

pub mod coding;
pub mod path;
pub mod ietf;
pub mod lite;
pub mod catalog;
pub mod container;
pub mod model;
pub mod token;
pub mod version;
mod scratch;
pub mod error;
