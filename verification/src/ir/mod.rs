//! The intermediate representation shared by the type checker and the evaluator.

pub mod class;
pub mod concrete;
pub mod data;
pub mod expr;
pub mod function;
pub mod pattern;
pub mod program;
pub mod type_signature;
pub mod type_var_generator;
pub mod types;
pub mod unifier;
pub mod unifier_laws;
pub mod solved_form;
