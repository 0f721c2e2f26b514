//! Expression compilation for Pax component manifests, and the property
//! patching helper used by the standard primitives.

pub mod compile;
pub mod manifest;
pub mod node_map;
pub mod patch;
pub mod traversal;
