//! A model of resource-oriented JSON API documents: resources, relationships,
//! primary data and documents, with a structural validator, a diff engine
//! between two snapshots of a resource, and an encoder to JSON text.
pub mod map;
pub mod api;
pub mod compare;
pub mod diff;
pub mod encode;
pub mod template;

pub use map::{JsonMap, NameMap};
