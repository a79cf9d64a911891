//! The replacement text of a search: taken as it is for a literal search,
//! else checked for ambiguous capture references and unescaped.

use crate::validate::{has_ambiguous_capture, validate_replace, InvalidReplaceCapture};
use vstd::prelude::*;
use vstd::string::StringSliceAdditionalSpecFns;
use vstd::utf8::encode_utf8;

verus! {

/// What `unescape::unescape` makes of a text: the text with its backslash
/// escapes replaced by the characters they stand for, or nothing where an
/// escape is malformed.
pub uninterp spec fn unescaped(text: Seq<char>) -> Option<Seq<char>>;

/// The characters of an optional text.
pub open spec fn text_of(text: Option<String>) -> Option<Seq<char>> {
    match text {
        Some(t) => Some(t@),
        None => None,
    }
}

/// Calls `unescape::unescape`. Trusted: its result depends on the text
/// alone.
#[verifier::external_body]
fn unescape_text(text: &str) -> (plain: Option<String>)
    ensures
        text_of(plain) == unescaped(text@),
{
    unescape::unescape(text)
}

/// The unescaped text where unescaping worked, else the raw text.
pub open spec fn unescaped_or(plain: Option<Seq<char>>, raw: Seq<char>) -> Seq<char> {
    match plain {
        Some(p) => p,
        None => raw,
    }
}

/// Falls back to the raw text where unescaping failed.
pub fn unescaped_or_raw(plain: Option<String>, raw: String) -> (text: String)
    ensures
        text@ == unescaped_or(text_of(plain), raw@),
{
    match plain {
        Some(p) => p,
        None => raw,
    }
}

/// The replacement text that a search uses.
pub open spec fn template_for(replace_with: Seq<char>, is_literal: bool) -> Seq<char> {
    if is_literal {
        replace_with
    } else {
        unescaped_or(unescaped(replace_with), replace_with)
    }
}

/// A replacement text is refused exactly if the search is not literal and
/// the text holds an ambiguous capture reference.
pub open spec fn template_refused(replace_with: Seq<char>, is_literal: bool) -> bool {
    !is_literal && has_ambiguous_capture(encode_utf8(replace_with))
}

/// Prepares the replacement text of a search. A literal search takes it as
/// it is. Any other search checks it for ambiguous capture references
/// first, then unescapes it, and keeps the raw text where that fails.
pub fn prepare_template(replace_with: String, is_literal: bool) -> (r: Result<
    String,
    InvalidReplaceCapture,
>)
    ensures
        r is Err <==> template_refused(replace_with@, is_literal),
        r matches Ok(t) ==> t@ == template_for(replace_with@, is_literal),
        r matches Err(e) ==> e.describes(encode_utf8(replace_with@)),
{
    if is_literal {
        return Ok(replace_with);
    }
    match validate_replace(replace_with.as_str()) {
        Err(e) => Err(e),
        Ok(()) => {
            let plain = unescape_text(replace_with.as_str());
            Ok(unescaped_or_raw(plain, replace_with))
        },
    }
}

} // verus!
