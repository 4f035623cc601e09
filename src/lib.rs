//! Parsing and formatting of RPM package labels: `NEVRA`
//! (`name-[epoch:]version[-release][.architecture]`) and its sub-form `EVRA`.
//!
//! Parsing is the exact inverse of formatting: a label is accepted exactly
//! when it is the text of a value whose fields are well-formed, and formatting
//! what was parsed reproduces the label.

pub mod errors;
pub mod grammar;
pub mod laws;
pub mod package;
mod scan;
pub mod version;

pub use package::PackageVersion;
pub use version::Version;
