//! Commands.

pub mod install;
pub mod osbase;
