//! Decision core of a convergence executor for bullseye targets.

pub mod cli;
pub mod duration;
pub mod instant;
pub mod loader;
pub mod outside;
pub mod path;
pub mod runner;
pub mod schema;
pub mod status;
pub mod store;
pub mod text;
pub mod tick;
