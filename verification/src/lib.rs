//! Request validation and cache heuristics for a placeholder-text API.
//!
//! The crate holds the value objects of the domain, the error taxonomy and
//! the `GenerationRequest` entity. Every executable function is verified
//! against the contract written in its header.

pub mod domain;
