//! Diagnostic triage: sanitizing, bounding and reporting what diagnostic tools say.
use vstd::prelude::*;

pub mod command;
pub mod config;
pub mod execution;
pub mod identifier;
pub mod json;
pub mod model;
pub mod numeral;
pub mod orchestration;
pub mod order;
pub mod path;
pub mod process;
pub mod protocol;
pub mod python;
pub mod reporters;
pub mod rust;
pub mod sanitize;
pub mod text;
pub mod time;
pub mod utf8;

verus! {

} // verus!
