//! A structured client layer over a command-line VPN tool.
//!
//! The tool is invoked as a subprocess (by a thin unverified shell around this
//! crate); this library owns everything that can be stated and proved: the
//! argument lists issued per operation, the output grammar that extracts typed
//! fields from captured standard output, the sentinel phrases that denote
//! non-error alternate outcomes, and the decision order (sentinel check, then
//! exit status, then pattern extraction) that maps a captured text blob to a
//! typed value or a typed failure.

pub mod domain;
pub mod foreign;
pub mod grammar;
pub mod interpret;
pub mod text;
