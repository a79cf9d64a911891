//! The flag string that tunes how a pattern matches.
//!
//! Flags are read one byte at a time from the left. A later flag overrides
//! an earlier one, and a byte that is no flag is skipped.

use vstd::prelude::*;
use vstd::string::StringSliceAdditionalSpecFns;

verus! {

/// `c`: match case-sensitively.
pub const CASE_SENSITIVE: u8 = 0x63;

/// `i`: match case-insensitively.
pub const CASE_INSENSITIVE: u8 = 0x69;

/// `e`: `^` and `$` match only at the ends of the input.
pub const SINGLE_LINE: u8 = 0x65;

/// `s`: `.` also matches a line terminator.
pub const DOT_ALL: u8 = 0x73;

/// `w`: the pattern matches whole words only.
pub const WHOLE_WORD: u8 = 0x77;

/// `m`: no flag by itself; where it occurs anywhere in the string, `s`
/// leaves the line anchors as they are.
pub const KEEP_MULTI_LINE: u8 = 0x6d;

/// The two pattern grammars.
#[derive(Clone, Copy, Debug, PartialEq, Eq, Structural)]
pub enum Dialect {
    /// Linear-time matching on raw bytes, without look-around.
    Constrained,
    /// Backtracking matching on text, with look-around and back-references.
    Expressive,
}

/// How a pattern is compiled.
#[derive(Clone, Copy, Debug, PartialEq, Eq, Structural)]
pub struct MatchOptions {
    /// Letters match regardless of case.
    pub case_insensitive: bool,
    /// `^` and `$` match at every line boundary.
    pub multi_line: bool,
    /// `.` matches line terminators too.
    pub dot_matches_new_line: bool,
    /// The pattern is wrapped in word-boundary anchors.
    pub whole_word: bool,
}

/// The options in force before any flag is read. Only the constrained
/// dialect starts out with line anchors at every line boundary.
pub open spec fn initial_options(dialect: Dialect) -> MatchOptions {
    MatchOptions {
        case_insensitive: false,
        multi_line: dialect == Dialect::Constrained,
        dot_matches_new_line: false,
        whole_word: false,
    }
}

/// The options after one more flag. `w` starts the engine over with the
/// wrapped pattern, which drops every option set so far. `e` and `s` mean
/// something to the constrained dialect only.
pub open spec fn after_flag(
    dialect: Dialect,
    before: MatchOptions,
    flag: u8,
    keep_multi_line: bool,
) -> MatchOptions {
    if flag == CASE_SENSITIVE {
        MatchOptions { case_insensitive: false, ..before }
    } else if flag == CASE_INSENSITIVE {
        MatchOptions { case_insensitive: true, ..before }
    } else if flag == WHOLE_WORD {
        MatchOptions {
            case_insensitive: false,
            multi_line: false,
            dot_matches_new_line: false,
            whole_word: true,
        }
    } else if flag == SINGLE_LINE && dialect == Dialect::Constrained {
        MatchOptions { multi_line: false, ..before }
    } else if flag == DOT_ALL && dialect == Dialect::Constrained {
        MatchOptions {
            multi_line: before.multi_line && keep_multi_line,
            dot_matches_new_line: true,
            ..before
        }
    } else {
        before
    }
}

/// The options after the flags of `flags` were read from the left.
pub open spec fn after_flags(dialect: Dialect, flags: Seq<u8>, keep_multi_line: bool) -> MatchOptions
    decreases flags.len(),
{
    if flags.len() == 0 {
        initial_options(dialect)
    } else {
        after_flag(
            dialect,
            after_flags(dialect, flags.drop_last(), keep_multi_line),
            flags.last(),
            keep_multi_line,
        )
    }
}

/// What a flag string means to a dialect.
pub open spec fn options_for(dialect: Dialect, flags: Seq<u8>) -> MatchOptions {
    after_flags(dialect, flags, flags.contains(KEEP_MULTI_LINE))
}

/// Some `flag` in `flags` has none of `a` and `b` after it.
pub open spec fn is_last_word(flags: Seq<u8>, flag: u8, a: u8, b: u8) -> bool {
    exists|i: int|
        0 <= i < flags.len() && #[trigger] flags[i] == flag && forall|j: int|
            i < j < flags.len() ==> #[trigger] flags[j] != a && flags[j] != b
}

/// What reading flags from the left amounts to, option by option.
pub open spec fn summed_up(dialect: Dialect, flags: Seq<u8>, keep_multi_line: bool) -> MatchOptions {
    MatchOptions {
        case_insensitive: is_last_word(flags, CASE_INSENSITIVE, CASE_SENSITIVE, WHOLE_WORD),
        multi_line: dialect == Dialect::Constrained && !flags.contains(WHOLE_WORD)
            && !flags.contains(SINGLE_LINE) && (!flags.contains(DOT_ALL) || keep_multi_line),
        dot_matches_new_line: dialect == Dialect::Constrained && is_last_word(
            flags,
            DOT_ALL,
            WHOLE_WORD,
            WHOLE_WORD,
        ),
        whole_word: flags.contains(WHOLE_WORD),
    }
}

proof fn lemma_contains_snoc(flags: Seq<u8>, wanted: u8)
    requires
        flags.len() > 0,
    ensures
        flags.contains(wanted) <==> flags.drop_last().contains(wanted) || flags.last() == wanted,
{
    let init = flags.drop_last();
    if init.contains(wanted) {
        let k = choose|k: int| 0 <= k < init.len() && init[k] == wanted;
        assert(flags[k] == wanted);
    }
    if flags.contains(wanted) && flags.last() != wanted {
        let k = choose|k: int| 0 <= k < flags.len() && flags[k] == wanted;
        assert(init[k] == wanted);
    }
}

proof fn lemma_last_word_snoc(flags: Seq<u8>, flag: u8, a: u8, b: u8)
    requires
        flags.len() > 0,
        flag != a,
        flag != b,
    ensures
        is_last_word(flags, flag, a, b) <==> flags.last() == flag || (flags.last() != a
            && flags.last() != b && is_last_word(flags.drop_last(), flag, a, b)),
{
    let init = flags.drop_last();
    let n = flags.len() - 1;
    if flags.last() == flag {
        assert(flags[n] == flag);
    } else {
        if is_last_word(flags, flag, a, b) {
            let i = choose|i: int|
                0 <= i < flags.len() && #[trigger] flags[i] == flag && forall|j: int|
                    i < j < flags.len() ==> #[trigger] flags[j] != a && flags[j] != b;
            assert(flags[n] != a && flags[n] != b);
            assert(init[i] == flag);
            assert forall|j: int| i < j < init.len() implies #[trigger] init[j] != a && init[j]
                != b by {
                assert(flags[j] != a && flags[j] != b);
            }
        }
        if flags.last() != a && flags.last() != b && is_last_word(init, flag, a, b) {
            let i = choose|i: int|
                0 <= i < init.len() && #[trigger] init[i] == flag && forall|j: int|
                    i < j < init.len() ==> #[trigger] init[j] != a && init[j] != b;
            assert(flags[i] == flag);
            assert forall|j: int| i < j < flags.len() implies #[trigger] flags[j] != a
                && flags[j] != b by {
                if j < n {
                    assert(init[j] != a && init[j] != b);
                }
            }
        }
    }
}

proof fn lemma_after_flags(dialect: Dialect, flags: Seq<u8>, keep_multi_line: bool)
    ensures
        after_flags(dialect, flags, keep_multi_line) == summed_up(dialect, flags, keep_multi_line),
    decreases flags.len(),
{
    if flags.len() > 0 {
        lemma_after_flags(dialect, flags.drop_last(), keep_multi_line);
        lemma_contains_snoc(flags, WHOLE_WORD);
        lemma_contains_snoc(flags, SINGLE_LINE);
        lemma_contains_snoc(flags, DOT_ALL);
        lemma_last_word_snoc(flags, CASE_INSENSITIVE, CASE_SENSITIVE, WHOLE_WORD);
        lemma_last_word_snoc(flags, DOT_ALL, WHOLE_WORD, WHOLE_WORD);
    }
}

/// Later flags override earlier ones, so only the last word on each option
/// counts:
/// - case is ignored exactly if some `i` has no `c` and no `w` after it;
/// - the pattern matches whole words exactly if the string holds a `w`;
/// - `.` matches line terminators exactly if the dialect is the constrained
///   one and some `s` has no `w` after it;
/// - line anchors match at every line boundary exactly if the dialect is the
///   constrained one and the string holds no `w`, no `e`, and no `s` unless
///   it also holds an `m`.
pub proof fn flags_last_word_counts(dialect: Dialect, flags: Seq<u8>)
    ensures
        options_for(dialect, flags) == summed_up(
            dialect,
            flags,
            flags.contains(KEEP_MULTI_LINE),
        ),
{
    lemma_after_flags(dialect, flags, flags.contains(KEEP_MULTI_LINE));
}

/// A byte that is none of `c`, `i`, `e`, `s`, `w`, `m`.
pub open spec fn is_no_flag(b: u8) -> bool {
    &&& b != CASE_SENSITIVE
    &&& b != CASE_INSENSITIVE
    &&& b != SINGLE_LINE
    &&& b != DOT_ALL
    &&& b != WHOLE_WORD
    &&& b != KEEP_MULTI_LINE
}

/// Bytes that are no flags change nothing: a flag string means what it
/// means with those bytes taken out.
pub proof fn unknown_flags_are_ignored(dialect: Dialect, flags: Seq<u8>)
    ensures
        options_for(dialect, flags) == options_for(dialect, flags.filter(|b: u8| !is_no_flag(b))),
{
    lemma_filter_keeps_flag(flags, KEEP_MULTI_LINE);
    lemma_after_filter(dialect, flags, flags.contains(KEEP_MULTI_LINE));
}

proof fn lemma_filter_keeps_flag(flags: Seq<u8>, wanted: u8)
    requires
        !is_no_flag(wanted),
    ensures
        flags.filter(|b: u8| !is_no_flag(b)).contains(wanted) <==> flags.contains(wanted),
{
    let known = |b: u8| !is_no_flag(b);
    if flags.filter(known).contains(wanted) {
        flags.lemma_filter_contains_rev(known, wanted);
    }
    if flags.contains(wanted) {
        let i = choose|i: int| 0 <= i < flags.len() && flags[i] == wanted;
        flags.lemma_filter_contains(known, i);
    }
}

proof fn lemma_after_filter(dialect: Dialect, flags: Seq<u8>, keep_multi_line: bool)
    ensures
        after_flags(dialect, flags, keep_multi_line) == after_flags(
            dialect,
            flags.filter(|b: u8| !is_no_flag(b)),
            keep_multi_line,
        ),
    decreases flags.len(),
{
    let known = |b: u8| !is_no_flag(b);
    reveal(Seq::filter);
    if flags.len() > 0 {
        let init = flags.drop_last();
        lemma_after_filter(dialect, init, keep_multi_line);
        if known(flags.last()) {
            assert(flags.filter(known) == init.filter(known).push(flags.last()));
            assert(flags.filter(known).drop_last() == init.filter(known));
        } else {
            assert(flags.filter(known) == init.filter(known));
        }
    }
}

fn contains_byte(bytes: &[u8], wanted: u8) -> (found: bool)
    ensures
        found == bytes@.contains(wanted),
{
    let mut i: usize = 0;
    while i < bytes.len()
        invariant
            i <= bytes@.len(),
            forall|k: int| 0 <= k < i ==> bytes@[k] != wanted,
        decreases bytes@.len() - i,
    {
        if bytes[i] == wanted {
            return true;
        }
        i += 1;
    }
    false
}

fn step(dialect: Dialect, before: MatchOptions, flag: u8, keep_multi_line: bool) -> (after:
    MatchOptions)
    ensures
        after == after_flag(dialect, before, flag, keep_multi_line),
{
    let constrained = match dialect {
        Dialect::Constrained => true,
        Dialect::Expressive => false,
    };
    if flag == CASE_SENSITIVE {
        MatchOptions { case_insensitive: false, ..before }
    } else if flag == CASE_INSENSITIVE {
        MatchOptions { case_insensitive: true, ..before }
    } else if flag == WHOLE_WORD {
        MatchOptions {
            case_insensitive: false,
            multi_line: false,
            dot_matches_new_line: false,
            whole_word: true,
        }
    } else if flag == SINGLE_LINE && constrained {
        MatchOptions { multi_line: false, ..before }
    } else if flag == DOT_ALL && constrained {
        MatchOptions {
            multi_line: before.multi_line && keep_multi_line,
            dot_matches_new_line: true,
            ..before
        }
    } else {
        before
    }
}

/// Reads a flag string for a dialect.
pub fn parse_flags(dialect: Dialect, flags: &str) -> (options: MatchOptions)
    ensures
        options == options_for(dialect, flags.spec_bytes()),
{
    let bytes = flags.as_bytes();
    let keep_multi_line = contains_byte(bytes, KEEP_MULTI_LINE);
    let mut options = MatchOptions {
        case_insensitive: false,
        multi_line: match dialect {
            Dialect::Constrained => true,
            Dialect::Expressive => false,
        },
        dot_matches_new_line: false,
        whole_word: false,
    };
    let mut i: usize = 0;
    while i < bytes.len()
        invariant
            i <= bytes@.len(),
            options == after_flags(dialect, bytes@.take(i as int), keep_multi_line),
        decreases bytes@.len() - i,
    {
        assert(bytes@.take(i + 1).drop_last() == bytes@.take(i as int));
        options = step(dialect, options, bytes[i], keep_multi_line);
        i += 1;
    }
    assert(bytes@.take(i as int) == bytes@);
    options
}

/// The options for an optional flag string: without one, the dialect's
/// initial options.
pub fn options_from(dialect: Dialect, flags: &Option<String>) -> (options: MatchOptions)
    ensures
        options == match flags {
            Some(f) => options_for(dialect, vstd::utf8::encode_utf8(f@)),
            None => initial_options(dialect),
        },
{
    match flags {
        Some(f) => parse_flags(dialect, f.as_str()),
        None => MatchOptions {
            case_insensitive: false,
            multi_line: match dialect {
                Dialect::Constrained => true,
                Dialect::Expressive => false,
            },
            dot_matches_new_line: false,
            whole_word: false,
        },
    }
}

} // verus!
