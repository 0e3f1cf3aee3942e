//! Name resolution, as far as it files the modules of a program.

pub mod error;
pub mod instance_members;
pub mod resolver;
