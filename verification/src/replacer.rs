//! One front for both dialects: a search is set up for a dialect and then
//! applied to byte buffers, one buffer at a time or a batch in order.

use crate::constrained::RegexReplacer;
use crate::decode::{as_text, decoded};
use crate::error::CompileError;
use crate::expressive::{Failure, FancyReplacer, MatchFailure};
use crate::flags::Dialect;
use vstd::prelude::*;
use vstd::string::{StrSliceExecFns, StringSliceAdditionalSpecFns};
use vstd::utf8::encode_utf8;

verus! {

/// What became of one input.
#[derive(Debug, PartialEq, Eq)]
pub enum Outcome {
    /// The input could not be read, so no search ran on it.
    Skipped,
    /// The input holds no match: there is nothing to write.
    NoMatch,
    /// The bytes that take the input's place.
    Replaced(Vec<u8>),
    /// The search could not be carried through on this input.
    Failed(MatchFailure),
}

/// An outcome as contracts see it.
pub enum OutcomeView {
    Skipped,
    NoMatch,
    Replaced(Seq<u8>),
    Failed(Failure),
}

impl View for Outcome {
    type V = OutcomeView;

    open spec fn view(&self) -> OutcomeView {
        match self {
            Outcome::Skipped => OutcomeView::Skipped,
            Outcome::NoMatch => OutcomeView::NoMatch,
            Outcome::Replaced(bytes) => OutcomeView::Replaced(bytes@),
            Outcome::Failed(failure) => OutcomeView::Failed(failure@),
        }
    }
}

/// A search in one of the two dialects. The dialect is fixed when the
/// search is set up.
pub enum Replacer {
    Constrained(RegexReplacer),
    Expressive(FancyReplacer),
}

impl Replacer {
    /// The dialect of this search.
    pub open spec fn dialect(&self) -> Dialect {
        match self {
            Replacer::Constrained(_) => Dialect::Constrained,
            Replacer::Expressive(_) => Dialect::Expressive,
        }
    }

    /// Sets up a search in the given dialect.
    pub fn new(
        dialect: Dialect,
        look_for: String,
        replace_with: String,
        is_literal: bool,
        flags: Option<String>,
        replacements: usize,
    ) -> (r: Result<Replacer, CompileError>)
        ensures
            match r {
                Ok(Replacer::Constrained(inner)) => dialect == Dialect::Constrained
                    && RegexReplacer::set_up(
                    Ok(inner),
                    look_for@,
                    replace_with@,
                    is_literal,
                    flags,
                    replacements,
                ),
                Ok(Replacer::Expressive(inner)) => dialect == Dialect::Expressive
                    && FancyReplacer::set_up(
                    Ok(inner),
                    look_for@,
                    replace_with@,
                    is_literal,
                    flags,
                    replacements,
                ),
                Err(e) => match dialect {
                    Dialect::Constrained => RegexReplacer::set_up(
                        Err(e),
                        look_for@,
                        replace_with@,
                        is_literal,
                        flags,
                        replacements,
                    ),
                    Dialect::Expressive => FancyReplacer::set_up(
                        Err(e),
                        look_for@,
                        replace_with@,
                        is_literal,
                        flags,
                        replacements,
                    ),
                },
            },
    {
        match dialect {
            Dialect::Constrained => match RegexReplacer::new(
                look_for,
                replace_with,
                is_literal,
                flags,
                replacements,
            ) {
                Ok(inner) => Ok(Replacer::Constrained(inner)),
                Err(e) => Err(e),
            },
            Dialect::Expressive => match FancyReplacer::new(
                look_for,
                replace_with,
                is_literal,
                flags,
                replacements,
            ) {
                Ok(inner) => Ok(Replacer::Expressive(inner)),
                Err(e) => Err(e),
            },
        }
    }

    /// What this search makes of a buffer. The constrained dialect works on
    /// the bytes as they are and cannot fail. The expressive dialect works
    /// on the text that the bytes encode.
    pub open spec fn outcome_of(&self, buffer: Seq<u8>, only_matched: bool, use_color: bool) -> OutcomeView {
        match self {
            Replacer::Constrained(inner) => match inner.replaced(buffer, only_matched, use_color) {
                Some(out) => OutcomeView::Replaced(out),
                None => OutcomeView::NoMatch,
            },
            Replacer::Expressive(inner) => match decoded(buffer) {
                None => OutcomeView::Failed(Failure::NotText),
                Some(text) => match inner.applied(text, only_matched, use_color) {
                    Ok(Some(out)) => OutcomeView::Replaced(encode_utf8(out)),
                    Ok(None) => OutcomeView::NoMatch,
                    Err(failure) => OutcomeView::Failed(failure),
                },
            },
        }
    }

    /// What this search makes of an input that may not have been read.
    pub open spec fn outcome_of_input(
        &self,
        input: Option<Vec<u8>>,
        only_matched: bool,
        use_color: bool,
    ) -> OutcomeView {
        match input {
            Some(buffer) => self.outcome_of(buffer@, only_matched, use_color),
            None => OutcomeView::Skipped,
        }
    }

    /// The engine finds no match of this search in a buffer and, in the
    /// expressive dialect, does not fail on it either.
    pub open spec fn finds_nothing(&self, buffer: Seq<u8>) -> bool {
        match self {
            Replacer::Constrained(inner) => inner.hits_in(buffer).len() == 0,
            Replacer::Expressive(inner) => match decoded(buffer) {
                Some(text) => inner.scan_of(text).0.len() == 0 && inner.scan_of(text).1 is None,
                None => false,
            },
        }
    }

    /// A buffer without a match is reported as such in either dialect and
    /// in every mode: it is never handed back as new content, not even as
    /// content equal to the old.
    pub proof fn no_match_is_signalled(&self, buffer: Seq<u8>, only_matched: bool, use_color: bool)
        requires
            self.finds_nothing(buffer),
        ensures
            self.outcome_of(buffer, only_matched, use_color) == OutcomeView::NoMatch,
    {
    }

    /// Applies this search to one buffer.
    pub fn apply(&self, content: &[u8], only_matched: bool, use_color: bool) -> (outcome: Outcome)
        ensures
            outcome@ == self.outcome_of(content@, only_matched, use_color),
    {
        match self {
            Replacer::Constrained(inner) => match inner.replace(content, only_matched, use_color) {
                Some(out) => Outcome::Replaced(out),
                None => Outcome::NoMatch,
            },
            Replacer::Expressive(inner) => match as_text(content) {
                None => Outcome::Failed(MatchFailure::NotText),
                Some(text) => match inner.try_replace(text, only_matched, use_color) {
                    Ok(Some(out)) => Outcome::Replaced(out.as_str().as_bytes_vec()),
                    Ok(None) => Outcome::NoMatch,
                    Err(failure) => Outcome::Failed(failure),
                },
            },
        }
    }

    /// Applies this search to every input of a batch, one after the other.
    /// The outcomes come in the order of the inputs, and each is what
    /// [`Replacer::apply`] gives for that input alone: no input has a say
    /// in the outcome of another, so the batch may as well be worked off
    /// in any order or side by side.
    pub fn apply_each(&self, inputs: &Vec<Option<Vec<u8>>>, only_matched: bool, use_color: bool) -> (outcomes:
        Vec<Outcome>)
        ensures
            outcomes@.len() == inputs@.len(),
            forall|i: int|
                0 <= i < inputs@.len() ==> (#[trigger] outcomes@[i])@ == self.outcome_of_input(
                    inputs@[i],
                    only_matched,
                    use_color,
                ),
    {
        let mut outcomes: Vec<Outcome> = Vec::new();
        let mut i: usize = 0;
        while i < inputs.len()
            invariant
                i <= inputs@.len(),
                outcomes@.len() == i,
                forall|k: int|
                    0 <= k < i ==> (#[trigger] outcomes@[k])@ == self.outcome_of_input(
                        inputs@[k],
                        only_matched,
                        use_color,
                    ),
            decreases inputs@.len() - i,
        {
            let outcome = match &inputs[i] {
                Some(buffer) => self.apply(buffer.as_slice(), only_matched, use_color),
                None => Outcome::Skipped,
            };
            outcomes.push(outcome);
            i += 1;
        }
        outcomes
    }
}

} // verus!
