//! Error handling.
use vstd::prelude::*;

verus! {

/// Why a label could not be built or parsed.
#[derive(Debug, Clone, Copy, PartialEq, Eq, Structural)]
pub enum Error {
    /// A package was constructed with an empty name.
    EmptyName,
    /// A label was constructed with an empty version.
    EmptyVersion,
    /// The text is not a label of the expected form.
    Syntax,
}

/// The library's result type.
pub type Result<T> = core::result::Result<T, Error>;

} // verus!
