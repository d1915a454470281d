//! The error taxonomy of the domain.

pub mod domain_errors;

pub use domain_errors::{DomainError, DomainResult};
