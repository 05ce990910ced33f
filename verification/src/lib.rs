//! Core of a URL shortener: validation and registration of short aliases,
//! a durable record store modeled as an in-memory relation, and a
//! read-through alias cache that serves resolutions.

pub mod cache;
pub mod errors;
pub mod laws;
pub mod model;
pub mod registrar;
pub mod resolver;
pub mod store;
pub mod validate;
