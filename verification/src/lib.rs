//! A type checker with type-class resolution and a tree-walking evaluator for a
//! small statically typed functional language, over a shared intermediate
//! representation.

pub mod constants;
pub mod util;
pub mod location_info;
pub mod ir;
pub mod interpreter;
pub mod typechecker;
pub mod syntax;
pub mod name_resolution;
