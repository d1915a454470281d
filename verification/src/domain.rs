//! The domain layer: errors, value objects and entities.

pub mod entities;
pub mod errors;
pub mod text;
pub mod value_objects;
