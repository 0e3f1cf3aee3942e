//! The type checker: instance resolution, type synthesis and inference.

pub mod common;
pub mod dependency_processor;
pub mod error;
pub mod expression_checker;
pub mod inference;
pub mod instance_resolver;
pub mod renaming;
pub mod type_processor;
pub mod type_store;
pub mod type_text;
pub mod typechecker;
pub mod function_type;
