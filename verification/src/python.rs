//! The Ruff-backed Python provider.
pub mod laws;
pub mod error;
pub mod builder;
pub mod request;
pub mod ruff;
pub mod session;
pub mod steps;
pub mod conclude;
