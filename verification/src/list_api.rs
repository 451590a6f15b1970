//! The portal itself: its records, its pages and its requests.

pub mod api;
pub mod clock;
pub mod dom;
pub mod models;
pub mod parser;
pub mod workflow;
