//! One-line status for a coding session, computed from plain values.

pub mod cache;
pub mod clock;
pub mod config;
pub mod json;
pub mod laws;
pub mod number;
pub mod properties;
pub mod render;
pub mod state;
pub mod stdin;
pub mod style;
pub mod table;
pub mod text;
pub mod timeline;
pub mod transcript;
pub mod types;
pub mod usage;
