//! Client-side logic for a coursework-submission portal: reading the portal's
//! pages into typed records, composing its requests, and steering one
//! submit-and-grade cycle.

pub mod args;
pub mod config;
pub mod detectors;
pub mod list_api;
pub mod text;
pub mod toml_file;
