//! Interactive editor core for a structured configuration document:
//! a JSON-like value model, a schema of known settings, a document
//! overlay with defaults, and the navigation and wizard state machines.

pub mod app;
pub mod codec;
pub mod columns;
pub mod config;
pub mod json;
pub mod settings;
pub mod text;

pub use config::Config;
pub use json::Json;
