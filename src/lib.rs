//! Database schema introspection model, loading logic and renderers.

pub mod drawer;
pub mod loader;
pub mod schema;
