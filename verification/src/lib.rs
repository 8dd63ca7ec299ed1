//! View, identity and binding layer over a Move execution engine.
//!
//! The library converts annotated runtime values into transport-safe view
//! trees, derives and round-trips event identities, frames the canonical byte
//! encodings those identities are hashed over, and decodes typed results of
//! read-only engine calls.
pub mod address;
pub mod binding;
pub mod canonical;
pub mod config;
pub mod digits;
pub mod event;
pub mod hash;
pub mod move_types;
pub mod scalar;
pub mod strings;
pub mod u256;
pub mod view;
