//! What the type checker's producers share of the surface syntax.

pub mod import;
pub mod module;
