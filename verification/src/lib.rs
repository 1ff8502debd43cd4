//! Component lifecycle library.

pub mod adapter;
pub mod central_log;
pub mod clock;
pub mod commands;
pub mod context;
pub mod distribution;
pub mod env;
pub mod episode;
pub mod layout;
pub mod lists;
pub mod manifest;
pub mod order;
pub mod osbase_install;
pub mod packaged;
pub mod paths;
pub mod probe;
pub mod response;
pub mod sandbox;
pub mod sort;
pub mod state;
pub mod support_matrix;
pub mod text;
