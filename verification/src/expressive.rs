//! The expressive dialect: backtracking matching on text, which can give
//! up in the middle of a buffer.

use crate::decode::{decode, decoded};
use crate::error::CompileError;
use crate::flags::{initial_options, options_for, options_from, Dialect, MatchOptions};
use crate::pattern::{effective_pattern, prepare_pattern};
use crate::color::{highlight_end, highlight_start};
use crate::rewrite::{
    assemble, consumed, emitted, hit_views, hits_in_order, in_order, in_order_holds_of_first,
    replaced_hits, rewritten, span_views, stamp, stamped, tail, Hit, HitView,
};
use crate::template::{prepare_template, template_for, template_refused, text_of};
use vstd::prelude::*;
use vstd::string::{StrSliceExecFns, StringSliceAdditionalSpecFns};
use vstd::utf8::{
    encode_utf8, encode_utf8_valid_utf8, is_ascii_chars, is_ascii_chars_encode_utf8,
    is_char_boundary, is_char_boundary_iff_not_is_continuation_byte,
    is_char_boundary_start_end_of_seq, valid_utf8, valid_utf8_concat, valid_utf8_split,
};

verus! {

/// `fancy_regex::Regex`, a compiled pattern of the expressive dialect.
/// Nothing inside it is visible here.
#[verifier::external_type_specification]
#[verifier::external_body]
pub struct ExFancyRegex(fancy_regex::Regex);

/// What `fancy_regex::RegexBuilder` makes of a pattern: the compiled
/// pattern, or the reason why there is none.
pub uninterp spec fn fancy_compiled(pattern: Seq<char>, case_insensitive: bool) -> Result<
    fancy_regex::Regex,
    fancy_regex::Error,
>;

/// Where the successive non-overlapping matches of a compiled pattern lie
/// in a text, as `fancy_regex::Regex::captures_iter` yields them up to its
/// end or its first error: start and end of each in bytes, and the message
/// of that error if there was one.
pub uninterp spec fn fancy_found_spans(matcher: fancy_regex::Regex, text: Seq<char>) -> (
    Seq<(int, int)>,
    Option<Seq<char>>,
);

/// The successive non-overlapping matches of a compiled pattern in a text,
/// as `fancy_regex::Regex::captures_iter` yields them up to its end or its
/// first error, each with the bytes of what `fancy_regex::Captures::expand`
/// makes of the template; and the message of that error if there was one.
pub uninterp spec fn fancy_found_expanded(
    matcher: fancy_regex::Regex,
    text: Seq<char>,
    template: Seq<char>,
) -> (Seq<HitView>, Option<Seq<char>>);

/// Calls `fancy_regex::RegexBuilder::new`, sets `case_insensitive`, and
/// calls `build`. Trusted: the outcome depends on the pattern and the
/// switch alone.
#[verifier::external_body]
fn compile(pattern: &str, case_insensitive: bool) -> (built: Result<
    fancy_regex::Regex,
    fancy_regex::Error,
>)
    ensures
        built == fancy_compiled(pattern@, case_insensitive),
{
    fancy_regex::RegexBuilder::new(pattern).case_insensitive(case_insensitive).build()
}

/// Walks `fancy_regex::Regex::captures_iter` until it ends or yields an
/// error, and takes start and end of group 0 of each item. Trusted: what
/// comes back depends on the compiled pattern and the text alone.
#[verifier::external_body]
fn find_spans(matcher: &fancy_regex::Regex, text: &str) -> (scan: (
    Vec<(usize, usize)>,
    Option<String>,
))
    ensures
        (span_views(scan.0@), text_of(scan.1)) == fancy_found_spans(*matcher, text@),
{
    let mut spans = Vec::new();
    for found in matcher.captures_iter(text) {
        match found {
            Ok(caps) => {
                let whole = caps.get(0).unwrap();
                spans.push((whole.start(), whole.end()));
            },
            Err(e) => return (spans, Some(e.to_string())),
        }
    }
    (spans, None)
}

/// Walks `fancy_regex::Regex::captures_iter` until it ends or yields an
/// error, and takes, of each item, start and end of group 0 and the bytes
/// that `Captures::expand` writes for the template. Trusted: what comes
/// back depends on the compiled pattern, the text and the template alone.
#[verifier::external_body]
fn find_expanded(matcher: &fancy_regex::Regex, text: &str, template: &str) -> (scan: (
    Vec<Hit>,
    Option<String>,
))
    ensures
        (hit_views(scan.0@), text_of(scan.1)) == fancy_found_expanded(*matcher, text@, template@),
{
    let mut hits = Vec::new();
    for found in matcher.captures_iter(text) {
        match found {
            Ok(caps) => {
                let whole = caps.get(0).unwrap();
                let mut filled = String::new();
                caps.expand(template, &mut filled);
                hits.push(Hit { start: whole.start(), end: whole.end(), text: filled.into_bytes() });
            },
            Err(e) => return (hits, Some(e.to_string())),
        }
    }
    (hits, None)
}

/// Why a pass over a text gave no result although it may hold matches.
#[derive(Debug, PartialEq, Eq)]
pub enum MatchFailure {
    /// The engine gave up on a match that the pass needed; its message.
    Engine(String),
    /// What the engine reported cannot be acted on: matches that do not lie
    /// in the text from left to right, or an output that is no text.
    Inconsistent,
    /// The input is no UTF-8 text, so this dialect cannot search it.
    NotText,
}

/// A failure as contracts see it.
pub enum Failure {
    Engine(Seq<char>),
    Inconsistent,
    NotText,
}

impl View for MatchFailure {
    type V = Failure;

    open spec fn view(&self) -> Failure {
        match self {
            MatchFailure::Engine(message) => Failure::Engine(message@),
            MatchFailure::Inconsistent => Failure::Inconsistent,
            MatchFailure::NotText => Failure::NotText,
        }
    }
}

/// The outcome of a pass as contracts see it.
pub open spec fn outcome_view(outcome: Result<Option<String>, MatchFailure>) -> Result<
    Option<Seq<char>>,
    Failure,
> {
    match outcome {
        Ok(text) => Ok(text_of(text)),
        Err(failure) => Err(failure@),
    }
}

/// A pass gets as far as the engine's error unless the ceiling stops it
/// at one of the matches found before.
pub open spec fn reaches_failure(found: nat, failure: Option<Seq<char>>, ceiling: nat) -> bool {
    failure is Some && (ceiling == 0 || ceiling > found)
}

/// What a pass makes of a text, given the matches that the engine found
/// before it stopped and the error that stopped it, if any.
pub open spec fn pass_over_text(
    text: Seq<char>,
    hits: Seq<HitView>,
    failure: Option<Seq<char>>,
    ceiling: nat,
    only_matched: bool,
    use_color: bool,
) -> Result<Option<Seq<char>>, Failure> {
    let buffer = encode_utf8(text);
    if reaches_failure(hits.len(), failure, ceiling) {
        Err(Failure::Engine(failure->0))
    } else if !in_order(hits, buffer.len() as int) {
        Err(Failure::Inconsistent)
    } else {
        match rewritten(buffer, hits, ceiling, only_matched, use_color) {
            None => Ok(None),
            Some(out) => match decoded(out) {
                Some(t) => Ok(Some(t)),
                None => Err(Failure::Inconsistent),
            },
        }
    }
}

/// A pass signals "no match" exactly if the engine ran through the text
/// and found nothing: not where it found a match, and not where it gave up
/// before it found one.
pub proof fn no_match_means_nothing_found(
    text: Seq<char>,
    hits: Seq<HitView>,
    failure: Option<Seq<char>>,
    ceiling: nat,
    only_matched: bool,
    use_color: bool,
)
    ensures
        pass_over_text(text, hits, failure, ceiling, only_matched, use_color) == Ok::<
            Option<Seq<char>>,
            Failure,
        >(None) <==> hits.len() == 0 && failure is None,
{
}

/// A match begins and ends between two characters of the text, and what
/// replaces it is text.
pub open spec fn fits_text(buffer: Seq<u8>, hit: HitView) -> bool {
    &&& is_char_boundary(buffer, hit.start)
    &&& is_char_boundary(buffer, hit.end)
    &&& valid_utf8(hit.text)
}

/// Text in, text out: where the matches lie in the text in order, each
/// between two characters, and each is replaced by text, a pass has
/// nothing to refuse. It fails only if the engine gave up.
pub proof fn text_in_text_out(
    text: Seq<char>,
    hits: Seq<HitView>,
    failure: Option<Seq<char>>,
    ceiling: nat,
    only_matched: bool,
    use_color: bool,
)
    requires
        in_order(hits, encode_utf8(text).len() as int),
        forall|i: int| 0 <= i < hits.len() ==> fits_text(encode_utf8(text), #[trigger] hits[i]),
    ensures
        pass_over_text(text, hits, failure, ceiling, only_matched, use_color) != Err::<
            Option<Seq<char>>,
            Failure,
        >(Failure::Inconsistent),
{
    let buffer = encode_utf8(text);
    encode_utf8_valid_utf8(text);
    if hits.len() > 0 {
        let used = replaced_hits(hits, ceiling);
        assert(used == hits.take(used.len() as int));
        in_order_holds_of_first(hits, buffer.len() as int, used.len() as int);
        assert forall|i: int| 0 <= i < used.len() implies fits_text(buffer, #[trigger] used[i]) by {
            assert(used[i] == hits[i]);
        }
        lemma_emitted_is_text(buffer, used, only_matched, use_color);
        if !only_matched {
            valid_utf8_split(buffer, consumed(used));
            assert(buffer.skip(consumed(used)) == buffer.subrange(
                consumed(used),
                buffer.len() as int,
            ));
        }
        valid_utf8_concat(
            emitted(buffer, used, only_matched, use_color),
            tail(buffer, used, only_matched),
        );
    }
}

proof fn lemma_between_boundaries(bytes: Seq<u8>, from: int, to: int)
    requires
        valid_utf8(bytes),
        0 <= from <= to <= bytes.len(),
        is_char_boundary(bytes, from),
        is_char_boundary(bytes, to),
    ensures
        valid_utf8(bytes.subrange(from, to)),
{
    valid_utf8_split(bytes, to);
    let front = bytes.subrange(0, to);
    if from == to {
        is_char_boundary_start_end_of_seq(front);
    } else {
        is_char_boundary_iff_not_is_continuation_byte(bytes, from);
        assert(front[from] == bytes[from]);
        is_char_boundary_iff_not_is_continuation_byte(front, from);
    }
    valid_utf8_split(front, from);
    assert(front.subrange(from, front.len() as int) == bytes.subrange(from, to));
}

proof fn lemma_markers_are_text()
    ensures
        valid_utf8(highlight_start()),
        valid_utf8(highlight_end()),
{
    let start = seq!['\x1b', '[', '3', '4', 'm'];
    let end = seq!['\x1b', '[', '0', 'm'];
    assert(is_ascii_chars(start));
    assert(is_ascii_chars(end));
    is_ascii_chars_encode_utf8(start);
    is_ascii_chars_encode_utf8(end);
    encode_utf8_valid_utf8(start);
    encode_utf8_valid_utf8(end);
    assert(encode_utf8(start) =~= highlight_start());
    assert(encode_utf8(end) =~= highlight_end());
}

proof fn lemma_emitted_is_text(buffer: Seq<u8>, hits: Seq<HitView>, only_matched: bool, use_color: bool)
    requires
        valid_utf8(buffer),
        in_order(hits, buffer.len() as int),
        forall|i: int| 0 <= i < hits.len() ==> fits_text(buffer, #[trigger] hits[i]),
    ensures
        valid_utf8(emitted(buffer, hits, only_matched, use_color)),
        0 <= consumed(hits) <= buffer.len(),
        is_char_boundary(buffer, consumed(hits)),
    decreases hits.len(),
{
    if hits.len() > 0 {
        let before = hits.drop_last();
        let hit = hits.last();
        assert(hit == hits[hits.len() - 1]);
        in_order_holds_of_first(hits, buffer.len() as int, hits.len() - 1);
        assert(hits.take(hits.len() - 1) == before);
        assert forall|i: int| 0 <= i < before.len() implies fits_text(buffer, #[trigger] before[i]) by {
            assert(before[i] == hits[i]);
        }
        lemma_emitted_is_text(buffer, before, only_matched, use_color);
        if before.len() > 0 {
            assert(before.last() == hits[hits.len() - 2]);
            assert(hits[hits.len() - 2].end <= hits[hits.len() - 1].start);
        }
        let from = consumed(before);
        let so_far = emitted(buffer, before, only_matched, use_color);
        lemma_markers_are_text();
        if only_matched {
            valid_utf8_concat(so_far, hit.text);
        } else {
            lemma_between_boundaries(buffer, from, hit.start);
            let kept = buffer.subrange(from, hit.start);
            if use_color {
                valid_utf8_concat(kept, highlight_start());
                valid_utf8_concat(kept + highlight_start(), hit.text);
                valid_utf8_concat(kept + highlight_start() + hit.text, highlight_end());
                valid_utf8_concat(so_far, kept + highlight_start() + hit.text + highlight_end());
            } else {
                valid_utf8_concat(kept, hit.text);
                valid_utf8_concat(so_far, kept + hit.text);
            }
        }
    }
}

/// A search in the expressive dialect, ready to be applied to texts.
pub struct FancyReplacer {
    regex: fancy_regex::Regex,
    replace_with: String,
    is_literal: bool,
    replacements: usize,
}

impl FancyReplacer {
    /// The compiled pattern.
    pub closed spec fn matcher(&self) -> fancy_regex::Regex {
        self.regex
    }

    /// The replacement text.
    pub closed spec fn template(&self) -> Seq<char> {
        self.replace_with@
    }

    /// Whether the replacement text is used as it is.
    pub closed spec fn literal(&self) -> bool {
        self.is_literal
    }

    /// The most matches that one pass replaces; 0 for no limit.
    pub closed spec fn ceiling(&self) -> nat {
        self.replacements as nat
    }

    /// The options that a flag string stands for in this dialect.
    pub open spec fn options(flags: Option<String>) -> MatchOptions {
        match flags {
            Some(f) => options_for(Dialect::Expressive, encode_utf8(f@)),
            None => initial_options(Dialect::Expressive),
        }
    }

    /// What the engine makes of the pattern of a search.
    pub open spec fn engine_for(look_for: Seq<char>, is_literal: bool, flags: Option<String>) -> Result<
        fancy_regex::Regex,
        fancy_regex::Error,
    > {
        let options = Self::options(flags);
        fancy_compiled(
            effective_pattern(Dialect::Expressive, look_for, is_literal, options.whole_word),
            options.case_insensitive,
        )
    }

    /// What setting up a search comes to: the search with its parts, or the
    /// reason why there is none. The replacement text is judged first.
    pub open spec fn set_up(
        r: Result<FancyReplacer, CompileError>,
        look_for: Seq<char>,
        replace_with: Seq<char>,
        is_literal: bool,
        flags: Option<String>,
        replacements: usize,
    ) -> bool {
        match r {
            Ok(replacer) => {
                &&& !template_refused(replace_with, is_literal)
                &&& Self::engine_for(look_for, is_literal, flags) == Ok::<fancy_regex::Regex, fancy_regex::Error>(
                    replacer.matcher(),
                )
                &&& replacer.template() == template_for(replace_with, is_literal)
                &&& replacer.literal() == is_literal
                &&& replacer.ceiling() == replacements
            },
            Err(CompileError::InvalidCapture(e)) => {
                &&& template_refused(replace_with, is_literal)
                &&& e.describes(encode_utf8(replace_with))
            },
            Err(CompileError::Fancy(e)) => {
                &&& !template_refused(replace_with, is_literal)
                &&& Self::engine_for(look_for, is_literal, flags) == Err::<fancy_regex::Regex, fancy_regex::Error>(e)
            },
            Err(CompileError::Regex(_)) => false,
        }
    }

    /// Sets up a search. The replacement text is checked first, so that an
    /// ambiguous capture reference is reported whatever the pattern holds;
    /// then the pattern is compiled.
    pub fn new(
        look_for: String,
        replace_with: String,
        is_literal: bool,
        flags: Option<String>,
        replacements: usize,
    ) -> (r: Result<FancyReplacer, CompileError>)
        ensures
            Self::set_up(r, look_for@, replace_with@, is_literal, flags, replacements),
    {
        let template = match prepare_template(replace_with, is_literal) {
            Ok(t) => t,
            Err(e) => {
                return Err(CompileError::InvalidCapture(e));
            },
        };
        let options = options_from(Dialect::Expressive, &flags);
        let pattern = prepare_pattern(Dialect::Expressive, look_for, is_literal, options.whole_word);
        match compile(pattern.as_str(), options.case_insensitive) {
            Ok(regex) => Ok(FancyReplacer { regex, replace_with: template, is_literal, replacements }),
            Err(e) => Err(CompileError::Fancy(e)),
        }
    }

    /// The matches of this search in a text up to the point where the
    /// engine stopped, each with its replacement, and the engine's error if
    /// it stopped on one. A literal search replaces every match by the
    /// replacement text as it is; any other fills the captures of the match
    /// into it.
    pub open spec fn scan_of(&self, text: Seq<char>) -> (Seq<HitView>, Option<Seq<char>>) {
        if self.literal() {
            let scan = fancy_found_spans(self.matcher(), text);
            (stamped(scan.0, encode_utf8(self.template())), scan.1)
        } else {
            fancy_found_expanded(self.matcher(), text, self.template())
        }
    }

    /// What this search makes of a text.
    pub open spec fn applied(&self, text: Seq<char>, only_matched: bool, use_color: bool) -> Result<
        Option<Seq<char>>,
        Failure,
    > {
        let scan = self.scan_of(text);
        pass_over_text(text, scan.0, scan.1, self.ceiling(), only_matched, use_color)
    }

    /// Finds the matches of this search in a text. The text is searched to
    /// its end or to the point where the engine gives up, whatever the
    /// ceiling.
    pub fn find(&self, content: &str) -> (scan: (Vec<Hit>, Option<String>))
        ensures
            (hit_views(scan.0@), text_of(scan.1)) == self.scan_of(content@),
    {
        if self.is_literal {
            let (spans, failure) = find_spans(&self.regex, content);
            let text = self.replace_with.as_str().as_bytes_vec();
            (stamp(&spans, &text), failure)
        } else {
            find_expanded(&self.regex, content, self.replace_with.as_str())
        }
    }

    /// Builds the result of a pass over a text from what the engine found
    /// in it: the matches up to the point where it stopped, and the error
    /// that stopped it, if any. At most `limit` matches are replaced, all
    /// where `limit` is 0.
    pub fn replacen(
        hits: &Vec<Hit>,
        failure: Option<String>,
        limit: usize,
        haystack: &str,
        use_color: bool,
        only_matched: bool,
    ) -> (r: Result<Option<String>, MatchFailure>)
        ensures
            outcome_view(r) == pass_over_text(
                haystack@,
                hit_views(hits@),
                text_of(failure),
                limit as nat,
                only_matched,
                use_color,
            ),
    {
        if let Some(message) = failure {
            if limit == 0 || limit > hits.len() {
                return Err(MatchFailure::Engine(message));
            }
        }
        let buffer = haystack.as_bytes();
        if !hits_in_order(hits, buffer.len()) {
            return Err(MatchFailure::Inconsistent);
        }
        match assemble(buffer, hits, limit, only_matched, use_color) {
            None => Ok(None),
            Some(out) => match decode(out) {
                Some(text) => Ok(Some(text)),
                None => Err(MatchFailure::Inconsistent),
            },
        }
    }

    /// Applies this search to a text and tells a text without a match from
    /// a pass that failed.
    pub fn try_replace(&self, content: &str, only_matched: bool, use_color: bool) -> (r: Result<
        Option<String>,
        MatchFailure,
    >)
        ensures
            outcome_view(r) == self.applied(content@, only_matched, use_color),
    {
        let (hits, failure) = self.find(content);
        FancyReplacer::replacen(&hits, failure, self.replacements, content, use_color, only_matched)
    }

    /// Applies this search to a text. Nothing comes back where the text
    /// holds no match, nor where the pass failed.
    pub fn replace(&self, content: &str, only_matched: bool, use_color: bool) -> (r: Option<String>)
        ensures
            text_of(r) == match self.applied(content@, only_matched, use_color) {
                Ok(text) => text,
                Err(_) => None,
            },
    {
        match self.try_replace(content, only_matched, use_color) {
            Ok(text) => text,
            Err(_) => None,
        }
    }
}

} // verus!
