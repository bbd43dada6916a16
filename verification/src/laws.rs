//! What the library promises, stated on plain inputs and results.

pub mod cache;
pub mod clock;
pub mod json;
pub mod line;
pub mod number;
pub mod session;
pub mod state;
pub mod style;
pub mod table;
pub mod text;
pub mod timeline;
pub mod transcript;
pub mod usage;
pub mod views;
