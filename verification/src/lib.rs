//! The host side of the plugin runtime: what a plugin may store, register and
//! ask of the core, with each decision stated and proved.

pub mod ids;
pub mod model;
pub mod store;
pub mod host;
pub mod services;
pub mod laws;
