//! Generation of foreign-function binding declarations from WebIDL
//! interface definitions.
//!
//! The library has two halves: an aggregator that folds a stream of
//! interface and operation declaration events into one model per
//! interface, and an emitter that turns the finished models into the
//! text of binding declarations.

pub mod emit;
pub mod laws;
pub mod model;
