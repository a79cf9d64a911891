//! Why a search could not be set up.

use crate::validate::InvalidReplaceCapture;
use vstd::prelude::*;

verus! {

/// `regex::Error`, why the constrained dialect refused a pattern. It is
/// carried to the caller as it is.
#[verifier::external_type_specification]
#[verifier::external_body]
pub struct ExRegexError(regex::Error);

/// `fancy_regex::Error`, why the expressive dialect refused a pattern. It
/// is carried to the caller as it is.
#[verifier::external_type_specification]
#[verifier::external_body]
pub struct ExFancyRegexError(fancy_regex::Error);

/// A search that cannot be set up is refused before any input is read.
#[derive(Debug)]
pub enum CompileError {
    /// The replacement text holds an ambiguous capture reference.
    InvalidCapture(InvalidReplaceCapture),
    /// The constrained dialect refused the pattern.
    Regex(regex::Error),
    /// The expressive dialect refused the pattern.
    Fancy(fancy_regex::Error),
}

} // verus!
