//! Core logic of `devtree`: configuration model, tracked state, branch and
//! path naming, and the decisions behind every command. Process spawning,
//! file access and serialisation live in the command-line front end.

pub mod branch;
pub mod command;
pub mod config;
pub mod error;
pub mod health;
pub mod host;
pub mod paths;
pub mod state;
pub mod table;
pub mod text;
pub mod workflow;
