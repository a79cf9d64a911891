//! From the pattern a caller gives to the pattern an engine compiles: a
//! literal pattern is escaped, and a whole-word pattern is wrapped in
//! word-boundary anchors.

use crate::flags::Dialect;
use vstd::prelude::*;
use vstd::string::StringExecFns;

verus! {

/// A character that means something to the constrained dialect.
pub open spec fn is_meta_character(c: char) -> bool {
    ||| c == '\\'
    ||| c == '.'
    ||| c == '+'
    ||| c == '*'
    ||| c == '?'
    ||| c == '('
    ||| c == ')'
    ||| c == '|'
    ||| c == '['
    ||| c == ']'
    ||| c == '{'
    ||| c == '}'
    ||| c == '^'
    ||| c == '$'
    ||| c == '#'
    ||| c == '&'
    ||| c == '-'
    ||| c == '~'
}

/// `text` with a backslash before each meta character.
pub open spec fn escaped(text: Seq<char>) -> Seq<char>
    decreases text.len(),
{
    if text.len() == 0 {
        Seq::empty()
    } else if is_meta_character(text.last()) {
        escaped(text.drop_last()).push('\\').push(text.last())
    } else {
        escaped(text.drop_last()).push(text.last())
    }
}

/// A character that the expressive dialect escapes with a backslash.
pub open spec fn is_special(c: char) -> bool {
    ||| c == '\\'
    ||| c == '.'
    ||| c == '+'
    ||| c == '*'
    ||| c == '?'
    ||| c == '('
    ||| c == ')'
    ||| c == '|'
    ||| c == '['
    ||| c == ']'
    ||| c == '{'
    ||| c == '}'
    ||| c == '^'
    ||| c == '$'
    ||| c == '#'
}

/// `text` with a backslash before each special character, and newline, tab
/// and carriage return written as `\n`, `\t` and `\r`.
pub open spec fn quoted(text: Seq<char>) -> Seq<char>
    decreases text.len(),
{
    if text.len() == 0 {
        Seq::empty()
    } else {
        let c = text.last();
        let before = quoted(text.drop_last());
        if c == '\n' {
            before.push('\\').push('n')
        } else if c == '\t' {
            before.push('\\').push('t')
        } else if c == '\r' {
            before.push('\\').push('r')
        } else if is_special(c) {
            before.push('\\').push(c)
        } else {
            before.push(c)
        }
    }
}

/// How the expressive dialect escapes `text`: a text without any special
/// character is left as it is, line terminators included.
pub open spec fn fancy_escaped(text: Seq<char>) -> Seq<char> {
    if exists|i: int| 0 <= i < text.len() && is_special(#[trigger] text[i]) {
        quoted(text)
    } else {
        text
    }
}

/// The pattern that matches `text` verbatim in a dialect.
pub open spec fn verbatim(dialect: Dialect, text: Seq<char>) -> Seq<char> {
    match dialect {
        Dialect::Constrained => escaped(text),
        Dialect::Expressive => fancy_escaped(text),
    }
}

/// `pattern` between two word-boundary anchors.
pub open spec fn word_bounded(pattern: Seq<char>) -> Seq<char> {
    seq!['\\', 'b'] + pattern + seq!['\\', 'b']
}

/// The pattern that is compiled for a search text: escaped where the search
/// is literal, then wrapped where it is for whole words.
pub open spec fn effective_pattern(
    dialect: Dialect,
    look_for: Seq<char>,
    is_literal: bool,
    whole_word: bool,
) -> Seq<char> {
    let base = if is_literal {
        verbatim(dialect, look_for)
    } else {
        look_for
    };
    if whole_word {
        word_bounded(base)
    } else {
        base
    }
}

/// Calls `regex::escape`. Trusted: it copies the text and puts a backslash
/// before each character for which `regex_syntax::is_meta_character` holds.
#[verifier::external_body]
fn escape_constrained(text: &str) -> (pattern: String)
    ensures
        pattern@ == escaped(text@),
{
    regex::escape(text)
}

/// Calls `fancy_regex::escape`. Trusted: a text without special characters
/// comes back unchanged; in any other, each special character gets a
/// backslash and newline, tab and carriage return become `\n`, `\t`, `\r`.
#[verifier::external_body]
fn escape_expressive(text: &str) -> (pattern: String)
    ensures
        pattern@ == fancy_escaped(text@),
{
    fancy_regex::escape(text).to_string()
}

/// Escapes a search text so that the dialect matches it verbatim.
pub fn escape(dialect: Dialect, text: &str) -> (pattern: String)
    ensures
        pattern@ == verbatim(dialect, text@),
{
    match dialect {
        Dialect::Constrained => escape_constrained(text),
        Dialect::Expressive => escape_expressive(text),
    }
}

/// Wraps a pattern in word-boundary anchors.
pub fn wrap_in_word_boundaries(pattern: &str) -> (wrapped: String)
    ensures
        wrapped@ == word_bounded(pattern@),
{
    proof {
        reveal_strlit("\\b");
    }
    let anchor: &str = "\\b";
    assert(anchor@ == seq!['\\', 'b']);
    let wrapped = String::from_str(anchor).concat(pattern).concat(anchor);
    wrapped
}

/// Turns a search text into the pattern to compile.
pub fn prepare_pattern(dialect: Dialect, look_for: String, is_literal: bool, whole_word: bool) -> (pattern:
    String)
    ensures
        pattern@ == effective_pattern(dialect, look_for@, is_literal, whole_word),
{
    let base = if is_literal {
        escape(dialect, look_for.as_str())
    } else {
        look_for
    };
    if whole_word {
        wrap_in_word_boundaries(base.as_str())
    } else {
        base
    }
}

} // verus!
