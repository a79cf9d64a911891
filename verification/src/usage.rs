//! What is settled before a search is set up: whether the request makes
//! sense, and which dialect it is for.

use crate::flags::Dialect;
use vstd::prelude::*;

verus! {

/// A request that is turned down before anything is compiled or read.
#[derive(Clone, Copy, Debug, PartialEq, Eq, Structural)]
pub enum UsageError {
    /// A literal search was asked for together with a replacement text.
    LiteralWithReplacement,
    /// No replacement text was given.
    NoReplacement,
}

/// What is wrong with a request, if anything. A literal search beside a
/// replacement text is named first; then a missing replacement text.
pub open spec fn usage_error(literal_mode: bool, replace_with: Seq<char>) -> Option<UsageError> {
    if literal_mode && replace_with.len() != 0 {
        Some(UsageError::LiteralWithReplacement)
    } else if replace_with.len() == 0 {
        Some(UsageError::NoReplacement)
    } else {
        None
    }
}

/// Judges a request.
pub fn check_usage(literal_mode: bool, replace_with: &str) -> (r: Result<(), UsageError>)
    ensures
        r == match usage_error(literal_mode, replace_with@) {
            Some(e) => Err::<(), UsageError>(e),
            None => Ok(()),
        },
{
    if literal_mode && !replace_with.is_empty() {
        Err(UsageError::LiteralWithReplacement)
    } else if replace_with.is_empty() {
        Err(UsageError::NoReplacement)
    } else {
        Ok(())
    }
}

/// The dialect that a request is for: the constrained one unless the
/// expressive one is asked for.
pub fn dialect_for(use_fancy_regex: bool) -> (dialect: Dialect)
    ensures
        dialect == if use_fancy_regex {
            Dialect::Expressive
        } else {
            Dialect::Constrained
        },
{
    if use_fancy_regex {
        Dialect::Expressive
    } else {
        Dialect::Constrained
    }
}

} // verus!
