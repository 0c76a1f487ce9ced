//! Builds an in-memory model of a graphics-API registry document (the
//! `gl.xml` schema) from a stream of XML tag events, and renders profile-aware
//! source declarations for the types and constants the model holds.

pub mod text;
pub mod model;
pub mod attrs;
pub mod event;
pub mod walker;
pub mod render;
