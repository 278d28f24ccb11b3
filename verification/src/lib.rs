//! Deterministic export of registered type descriptions as target-language
//! declarations.
//!
//! A [`registry::Registry`] collects type descriptors and registration errors.
//! [`export::ts_with_cfg`] validates a registry, orders its descriptors by
//! identifier, rejects clashing names and assembles the declarations that a
//! caller-supplied serializer produces into one document.

pub mod export;
pub mod model;
pub mod names;
pub mod registry;
pub mod selection;
pub mod text;

pub use export::{ts, ts_with_cfg};
