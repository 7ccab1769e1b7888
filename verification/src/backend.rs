//! Code generation.
pub mod code;
pub mod plan;
pub mod sort;
pub mod wasm;
