//! A verified to-do list core: an in-memory task store with id-based
//! lookup and mutation, and a JSON codec for its on-disk document.
//!
//! The store holds an ordered sequence of tasks; ids are assigned as
//! `count + 1` at creation time. The codec writes the store as a JSON
//! object `{"tasks": [...]}` and reads the same shape back; parsing and
//! serialization are verified to round-trip exactly.

pub mod codec;
pub mod parse;
pub mod roundtrip;
pub mod store;
pub mod task;
