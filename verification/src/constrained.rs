//! The constrained dialect: linear-time matching on raw bytes.

use crate::error::CompileError;
use crate::flags::{initial_options, options_for, options_from, Dialect, MatchOptions};
use crate::pattern::{effective_pattern, prepare_pattern};
use crate::rewrite::{
    assemble, bytes_of, hit_views, hits_in_order, in_order, rewritten, span_views, stamp, stamped,
    Hit, HitView,
};
use crate::template::{prepare_template, template_for, template_refused};
use vstd::prelude::*;
use vstd::string::{StrSliceExecFns, StringSliceAdditionalSpecFns};
use vstd::utf8::encode_utf8;

verus! {

/// `regex::bytes::Regex`, a compiled pattern of the constrained dialect.
/// Nothing inside it is visible here.
#[verifier::external_type_specification]
#[verifier::external_body]
pub struct ExBytesRegex(regex::bytes::Regex);

/// What `regex::bytes::RegexBuilder` makes of a pattern under the three
/// switches: the compiled pattern, or the reason why there is none.
pub uninterp spec fn compiled(
    pattern: Seq<char>,
    case_insensitive: bool,
    multi_line: bool,
    dot_matches_new_line: bool,
) -> Result<regex::bytes::Regex, regex::Error>;

/// Where the successive non-overlapping matches of a compiled pattern lie
/// in a buffer, as `regex::bytes::Regex::captures_iter` yields them: start
/// and end of each.
pub uninterp spec fn found_spans(matcher: regex::bytes::Regex, buffer: Seq<u8>) -> Seq<(int, int)>;

/// The successive non-overlapping matches of a compiled pattern in a
/// buffer, as `regex::bytes::Regex::captures_iter` yields them, each with
/// what `regex::bytes::Captures::expand` makes of the template.
pub uninterp spec fn found_expanded(
    matcher: regex::bytes::Regex,
    buffer: Seq<u8>,
    template: Seq<u8>,
) -> Seq<HitView>;

/// Calls `regex::bytes::RegexBuilder::new`, sets `case_insensitive`,
/// `multi_line` and `dot_matches_new_line`, and calls `build`. Trusted: the
/// outcome depends on the pattern and the three switches alone.
#[verifier::external_body]
fn compile(
    pattern: &str,
    case_insensitive: bool,
    multi_line: bool,
    dot_matches_new_line: bool,
) -> (built: Result<regex::bytes::Regex, regex::Error>)
    ensures
        built == compiled(pattern@, case_insensitive, multi_line, dot_matches_new_line),
{
    regex::bytes::RegexBuilder::new(pattern)
        .case_insensitive(case_insensitive)
        .multi_line(multi_line)
        .dot_matches_new_line(dot_matches_new_line)
        .build()
}

/// Walks `regex::bytes::Regex::captures_iter` to its end and takes start
/// and end of group 0 of each item. Trusted: the spans depend on the
/// compiled pattern and the buffer alone.
#[verifier::external_body]
fn find_spans(matcher: &regex::bytes::Regex, buffer: &[u8]) -> (spans: Vec<(usize, usize)>)
    ensures
        span_views(spans@) == found_spans(*matcher, buffer@),
{
    let mut spans = Vec::new();
    for caps in matcher.captures_iter(buffer) {
        let whole = caps.get(0).unwrap();
        spans.push((whole.start(), whole.end()));
    }
    spans
}

/// Walks `regex::bytes::Regex::captures_iter` to its end and takes, of each
/// item, start and end of group 0 and what `Captures::expand` writes for
/// the template. Trusted: the matches depend on the compiled pattern, the
/// buffer and the template alone.
#[verifier::external_body]
fn find_expanded(matcher: &regex::bytes::Regex, buffer: &[u8], template: &[u8]) -> (hits: Vec<Hit>)
    ensures
        hit_views(hits@) == found_expanded(*matcher, buffer@, template@),
{
    let mut hits = Vec::new();
    for caps in matcher.captures_iter(buffer) {
        let whole = caps.get(0).unwrap();
        let mut text = Vec::new();
        caps.expand(template, &mut text);
        hits.push(Hit { start: whole.start(), end: whole.end(), text });
    }
    hits
}

/// What a pass makes of a buffer, given the matches found in it. Matches
/// that do not lie in the buffer from left to right are not acted on.
pub open spec fn pass_over_bytes(
    buffer: Seq<u8>,
    hits: Seq<HitView>,
    ceiling: nat,
    only_matched: bool,
    use_color: bool,
) -> Option<Seq<u8>> {
    if in_order(hits, buffer.len() as int) {
        rewritten(buffer, hits, ceiling, only_matched, use_color)
    } else {
        None
    }
}

/// A search in the constrained dialect, ready to be applied to buffers.
pub struct RegexReplacer {
    regex: regex::bytes::Regex,
    replace_with: Vec<u8>,
    is_literal: bool,
    replacements: usize,
}

impl RegexReplacer {
    /// The compiled pattern.
    pub closed spec fn matcher(&self) -> regex::bytes::Regex {
        self.regex
    }

    /// The bytes of the replacement text.
    pub closed spec fn template(&self) -> Seq<u8> {
        self.replace_with@
    }

    /// Whether the replacement text is used as it is.
    pub closed spec fn literal(&self) -> bool {
        self.is_literal
    }

    /// The most matches that one pass replaces; 0 for no limit.
    pub closed spec fn ceiling(&self) -> nat {
        self.replacements as nat
    }

    /// The options that a flag string stands for in this dialect.
    pub open spec fn options(flags: Option<String>) -> MatchOptions {
        match flags {
            Some(f) => options_for(Dialect::Constrained, encode_utf8(f@)),
            None => initial_options(Dialect::Constrained),
        }
    }

    /// What the engine makes of the pattern of a search.
    pub open spec fn engine_for(look_for: Seq<char>, is_literal: bool, flags: Option<String>) -> Result<
        regex::bytes::Regex,
        regex::Error,
    > {
        let options = Self::options(flags);
        compiled(
            effective_pattern(Dialect::Constrained, look_for, is_literal, options.whole_word),
            options.case_insensitive,
            options.multi_line,
            options.dot_matches_new_line,
        )
    }

    /// What setting up a search comes to: the search with its parts, or the
    /// reason why there is none. The replacement text is judged first.
    pub open spec fn set_up(
        r: Result<RegexReplacer, CompileError>,
        look_for: Seq<char>,
        replace_with: Seq<char>,
        is_literal: bool,
        flags: Option<String>,
        replacements: usize,
    ) -> bool {
        match r {
            Ok(replacer) => {
                &&& !template_refused(replace_with, is_literal)
                &&& Self::engine_for(look_for, is_literal, flags) == Ok::<regex::bytes::Regex, regex::Error>(
                    replacer.matcher(),
                )
                &&& replacer.template() == encode_utf8(template_for(replace_with, is_literal))
                &&& replacer.literal() == is_literal
                &&& replacer.ceiling() == replacements
            },
            Err(CompileError::InvalidCapture(e)) => {
                &&& template_refused(replace_with, is_literal)
                &&& e.describes(encode_utf8(replace_with))
            },
            Err(CompileError::Regex(e)) => {
                &&& !template_refused(replace_with, is_literal)
                &&& Self::engine_for(look_for, is_literal, flags) == Err::<regex::bytes::Regex, regex::Error>(e)
            },
            Err(CompileError::Fancy(_)) => false,
        }
    }

    /// Sets up a search. The replacement text is checked first, so that an
    /// ambiguous capture reference is reported whatever the pattern holds;
    /// then the pattern is compiled.
    pub fn new(
        look_for: String,
        replace_with: String,
        is_literal: bool,
        flags: Option<String>,
        replacements: usize,
    ) -> (r: Result<RegexReplacer, CompileError>)
        ensures
            Self::set_up(r, look_for@, replace_with@, is_literal, flags, replacements),
    {
        let template = match prepare_template(replace_with, is_literal) {
            Ok(t) => t,
            Err(e) => {
                return Err(CompileError::InvalidCapture(e));
            },
        };
        let options = options_from(Dialect::Constrained, &flags);
        let pattern = prepare_pattern(Dialect::Constrained, look_for, is_literal, options.whole_word);
        match compile(
            pattern.as_str(),
            options.case_insensitive,
            options.multi_line,
            options.dot_matches_new_line,
        ) {
            Ok(regex) => Ok(
                RegexReplacer {
                    regex,
                    replace_with: template.as_str().as_bytes_vec(),
                    is_literal,
                    replacements,
                },
            ),
            Err(e) => Err(CompileError::Regex(e)),
        }
    }

    /// The matches of this search in a buffer, each with its replacement.
    /// A literal search replaces every match by the replacement text as it
    /// is; any other fills the captures of the match into it.
    pub open spec fn hits_in(&self, buffer: Seq<u8>) -> Seq<HitView> {
        if self.literal() {
            stamped(found_spans(self.matcher(), buffer), self.template())
        } else {
            found_expanded(self.matcher(), buffer, self.template())
        }
    }

    /// What this search makes of a buffer.
    pub open spec fn replaced(&self, buffer: Seq<u8>, only_matched: bool, use_color: bool) -> Option<
        Seq<u8>,
    > {
        pass_over_bytes(buffer, self.hits_in(buffer), self.ceiling(), only_matched, use_color)
    }

    /// Finds the matches of this search in a buffer. The whole buffer is
    /// searched, whatever the ceiling.
    pub fn find(&self, content: &[u8]) -> (hits: Vec<Hit>)
        ensures
            hit_views(hits@) == self.hits_in(content@),
    {
        if self.is_literal {
            let spans = find_spans(&self.regex, content);
            stamp(&spans, &self.replace_with)
        } else {
            find_expanded(&self.regex, content, self.replace_with.as_slice())
        }
    }

    /// Builds the result of a pass over a buffer from the matches found in
    /// it: at most `limit` of them are replaced, all where `limit` is 0.
    pub fn replacen(
        hits: &Vec<Hit>,
        limit: usize,
        haystack: &[u8],
        use_color: bool,
        only_matched: bool,
    ) -> (r: Option<Vec<u8>>)
        ensures
            bytes_of(r) == pass_over_bytes(
                haystack@,
                hit_views(hits@),
                limit as nat,
                only_matched,
                use_color,
            ),
    {
        if hits_in_order(hits, haystack.len()) {
            assemble(haystack, hits, limit, only_matched, use_color)
        } else {
            None
        }
    }

    /// Applies this search to a buffer. Nothing comes back where the buffer
    /// holds no match.
    pub fn replace(&self, content: &[u8], only_matched: bool, use_color: bool) -> (r: Option<Vec<u8>>)
        ensures
            bytes_of(r) == self.replaced(content@, only_matched, use_color),
    {
        let hits = self.find(content);
        RegexReplacer::replacen(&hits, self.replacements, content, use_color, only_matched)
    }
}

} // verus!
