//! Syntactic conformance between a specification contract and an
//! implementation contract, the merging of specification annotations into an
//! implementation's source, and the decoding of constructor arguments.
pub mod model;
pub mod conformance;
pub mod merge;
pub mod text;
pub mod values;
pub mod pipeline;
pub mod api;
pub mod laws;
