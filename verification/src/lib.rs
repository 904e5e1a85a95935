//! Architecture lint configuration and evaluation for Rust projects.
pub mod cli;
pub mod config;
pub mod lints;
pub mod order;
pub mod pattern;
pub mod project_context;
pub mod text;
