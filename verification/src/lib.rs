//! Translation of decoded RISC-U machine programs into word-level symbolic
//! transition-system graphs (BTOR2 models), with a byte-exact serializer and
//! a concrete single-step evaluator for the generated models.

pub mod builder;
pub mod decode;
pub mod eval;
pub mod fmt;
pub mod graph;
pub mod laws;
pub mod render;
