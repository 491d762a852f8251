//! Bounded, shell-free child process execution.
pub mod error;
pub mod laws;
pub mod limits;
pub mod capture;
pub mod invocation;
pub mod direct;
pub mod manifest;
pub mod queued;
pub mod terminate;
pub mod watched;
pub mod words;
