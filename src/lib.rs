//! A small dense entity-component store.
//!
//! Entities are 32-bit row indices. Every registered component kind owns one
//! column holding a value for each entity, so all columns stay aligned and grow
//! in lock-step as entities are created.

pub mod entity;
pub mod model;
pub mod data;
pub mod laws;

pub use data::{Data, EcsError};
pub use entity::Entity;
