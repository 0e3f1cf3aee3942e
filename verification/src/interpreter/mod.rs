//! The tree-walking evaluator.

pub mod data_int;
pub mod environment;
pub mod error;
pub mod extern_function;
pub mod interpreter;
pub mod semantics;
pub mod show;
pub mod value;
