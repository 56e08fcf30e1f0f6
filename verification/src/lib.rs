//! License inventory for the dependencies of polyglot projects.
//!
//! The crate resolves the dependency names that Python, Rust and Node
//! manifests declare to license-annotated records. It performs no I/O:
//! callers fetch registry documents and hand them in as plain values.

pub mod endpoint;
pub mod github;
pub mod model;
pub mod names;
pub mod node;
pub mod pipeline;
pub mod python;
pub mod rust;
pub mod string_map;
pub mod table;
pub mod text;
