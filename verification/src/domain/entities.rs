//! The entities of the domain.

pub mod generation_request;

pub use generation_request::{CacheStrategy, GenerationRequest, RequestView};
