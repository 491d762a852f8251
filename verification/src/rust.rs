//! The Cargo- and Clippy-backed Rust provider.
pub mod cargo_json;
pub mod words;
pub mod target;
pub mod error;
pub mod request;
pub mod scope;
pub mod place;
pub mod laws;
pub mod ledger;
pub mod observe;
pub mod response;
pub mod session;
pub mod admission;
