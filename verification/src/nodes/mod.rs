//! The reference nodes of a pipeline. Each offers the plugin contract: what
//! it accepts and emits, its name and version, `process`, `process_raw`, and
//! its state as bytes.

pub mod node_a;
pub mod node_b;
pub mod node_c;
pub mod sink;
pub mod source;
