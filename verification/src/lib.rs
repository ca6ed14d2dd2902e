//! A small personal-homepage library: configuration data, link rendering by
//! placeholder substitution, and the per-request decision logic.
pub mod config;
pub mod handler;
pub mod render;
pub mod text;
