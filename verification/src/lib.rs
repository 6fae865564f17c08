//! Host runtime for dynamically loaded feature plugins: lifecycle registry,
//! cancellable streaming protocol, host/plugin callback bridge, and an
//! immediate-mode UI description layer.

pub mod bridge;
pub mod components;
pub mod demo;
pub mod dict;
pub mod errors;
pub mod keyed;
pub mod laws;
pub mod logging;
pub mod message;
pub mod metadata;
pub mod registry;
pub mod repo;
pub mod stream;
pub mod strutil;
mod sys;
pub mod ui;
