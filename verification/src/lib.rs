//! Core of an industrial-IoT stream-processing host: a linear pipeline of
//! nodes over tag updates, with its rules proved.
//!
//! - [`registry`]: tag names, the numbers assigned to them, and their
//!   metadata; [`host_api`] is what sandboxed nodes may ask of it.
//! - [`msg_id`]: message identifiers.
//! - [`deploy`]: the type check that a pipeline passes before it is activated.
//! - [`dispatch`]: the per-message path from the source to the sink, as a
//!   state machine that tells its caller which node to call next.
//! - [`nodes`]: the reference nodes: source, unit conversion, quality filter,
//!   sliding average, sink.
//! - [`types`] and [`records`]: the data that flows, and the records at the
//!   pipeline's two ends; [`wire`] is the encoding of the record that leaves.
//! - [`ieee`] and [`arith`]: doubles as bit patterns: their order, decided
//!   here, and their arithmetic, asked of the caller.
//! - [`artifact`] and [`text`]: kinds of plugin artifact, and helpers on text.

pub mod arith;
pub mod artifact;
pub mod deploy;
pub mod dispatch;
pub mod host_api;
pub mod ieee;
pub mod msg_id;
pub mod nodes;
pub mod records;
pub mod registry;
pub mod text;
pub mod types;
pub mod wire;
