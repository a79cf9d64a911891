//! Checks a replacement template for capture references whose extent is
//! ambiguous: `$1a` could mean "group 1, then `a`" or "the group named `1a`".
//!
//! The check works on the UTF-8 bytes of the template. Every byte it looks
//! for is ASCII, and in UTF-8 an ASCII byte never occurs inside the encoding
//! of another character, so positions found here are character boundaries.

use vstd::prelude::*;
use vstd::string::StringSliceAdditionalSpecFns;
use vstd::utf8::encode_utf8;

verus! {

/// The byte `$`, which opens a capture reference.
pub const DOLLAR: u8 = 0x24;

/// An ASCII decimal digit.
pub open spec fn is_digit(b: u8) -> bool {
    0x30 <= b <= 0x39
}

/// An ASCII letter or an underscore: what may start a group name.
pub open spec fn is_name_start(b: u8) -> bool {
    ||| 0x41 <= b <= 0x5a
    ||| 0x61 <= b <= 0x7a
    ||| b == 0x5f
}

/// A byte that may continue a capture reference written without braces.
pub open spec fn is_name_byte(b: u8) -> bool {
    is_digit(b) || is_name_start(b)
}

/// At `dollar` stands a `$`, directly followed by exactly `digits` digits
/// (at least one), directly followed by a letter or an underscore.
pub open spec fn ambiguous_at(t: Seq<u8>, dollar: int, digits: int) -> bool {
    &&& 0 <= dollar
    &&& 1 <= digits
    &&& dollar + digits + 1 < t.len()
    &&& t[dollar] == DOLLAR
    &&& forall|k: int| dollar < k <= dollar + digits ==> is_digit(#[trigger] t[k])
    &&& is_name_start(t[dollar + digits + 1])
}

/// The template holds a capture reference of ambiguous extent somewhere.
pub open spec fn has_ambiguous_capture(t: Seq<u8>) -> bool {
    exists|dollar: int, digits: int| ambiguous_at(t, dollar, digits)
}

/// `end` is where the run of name bytes that starts at `start` stops.
pub open spec fn name_run_ends(t: Seq<u8>, start: int, end: int) -> bool {
    &&& 0 <= start <= end <= t.len()
    &&& forall|k: int| start <= k < end ==> is_name_byte(#[trigger] t[k])
    &&& end < t.len() ==> !is_name_byte(t[end])
}

/// Why a template was refused: where its first ambiguous capture reference
/// stands. Offsets count bytes of `template`.
#[derive(Debug, PartialEq, Eq)]
pub struct InvalidReplaceCapture {
    /// The template as it was given.
    pub template: String,
    /// Offset of the first byte after the `$`.
    pub ident_start: usize,
    /// Offset just past the last byte of the reference.
    pub ident_end: usize,
    /// How many digits directly follow the `$`.
    pub num_leading_digits: usize,
}

impl InvalidReplaceCapture {
    /// The error describes the first ambiguous capture reference of `t`,
    /// with the whole run of name bytes it would swallow.
    pub open spec fn describes(&self, t: Seq<u8>) -> bool {
        &&& encode_utf8(self.template@) == t
        &&& self.ident_start >= 1
        &&& ambiguous_at(t, self.ident_start - 1, self.num_leading_digits as int)
        &&& forall|dollar: int, digits: int| #[trigger]
            ambiguous_at(t, dollar, digits) ==> self.ident_start - 1 <= dollar
        &&& name_run_ends(t, self.ident_start as int, self.ident_end as int)
    }
}

fn byte_is_digit(b: u8) -> (r: bool)
    ensures
        r == is_digit(b),
{
    0x30 <= b && b <= 0x39
}

fn byte_is_name_start(b: u8) -> (r: bool)
    ensures
        r == is_name_start(b),
{
    (0x41 <= b && b <= 0x5a) || (0x61 <= b && b <= 0x7a) || b == 0x5f
}

/// A capture reference found by [`first_ambiguous_capture`].
#[derive(Clone, Copy, Debug, PartialEq, Eq, Structural)]
pub struct AmbiguousCapture {
    /// Offset of the `$`.
    pub dollar: usize,
    /// How many digits directly follow the `$`.
    pub digits: usize,
    /// Offset just past the run of name bytes after the `$`.
    pub end: usize,
}

/// Scans `template` from the left for a `$` that is followed by digits and
/// then by a letter or an underscore, and reports the first one.
pub fn first_ambiguous_capture(template: &[u8]) -> (found: Option<AmbiguousCapture>)
    ensures
        found is None <==> !has_ambiguous_capture(template@),
        found matches Some(c) ==> {
            &&& ambiguous_at(template@, c.dollar as int, c.digits as int)
            &&& forall|dollar: int, digits: int| #[trigger]
                ambiguous_at(template@, dollar, digits) ==> c.dollar <= dollar
            &&& name_run_ends(template@, c.dollar + 1, c.end as int)
        },
{
    let n: usize = template.len();
    let mut i: usize = 0;
    while i < n
        invariant
            n == template@.len(),
            i <= n,
            forall|dollar: int, digits: int| #[trigger]
                ambiguous_at(template@, dollar, digits) ==> i <= dollar,
        decreases n - i,
    {
        if template[i] != DOLLAR {
            i += 1;
        } else {
            let mut j: usize = i + 1;
            while j < n && byte_is_digit(template[j])
                invariant
                    n == template@.len(),
                    i < j <= n,
                    forall|k: int| i < k < j ==> is_digit(#[trigger] template@[k]),
                decreases n - j,
            {
                j += 1;
            }
            if j > i + 1 && j < n && byte_is_name_start(template[j]) {
                let mut end: usize = j + 1;
                while end < n && (byte_is_digit(template[end]) || byte_is_name_start(template[end]))
                    invariant
                        n == template@.len(),
                        i < end <= n,
                        forall|k: int| i < k < end ==> is_name_byte(#[trigger] template@[k]),
                    decreases n - end,
                {
                    end += 1;
                }
                assert(ambiguous_at(template@, i as int, j - i - 1));
                return Some(AmbiguousCapture { dollar: i, digits: j - i - 1, end });
            }
            assert forall|dollar: int, digits: int| #[trigger]
                ambiguous_at(template@, dollar, digits) implies j <= dollar by {
                if dollar < j {
                    if dollar == i {
                        // the digits after `i` stop at `j`, where no name starts
                        let stop = dollar + digits + 1;
                        if stop < j {
                            assert(is_digit(template@[stop]));
                        } else if stop > j {
                            assert(is_digit(template@[j as int]));
                        }
                    } else {
                        assert(is_digit(template@[dollar]));
                    }
                }
            }
            i = j;
        }
    }
    None
}

/// Accepts a replacement template unless it holds a `$` followed by digits
/// and then, with nothing in between, by a letter or an underscore. Every
/// other use of `$` passes: `${1}a`, `$name`, `$1` before punctuation or at
/// the end.
pub fn validate_replace(s: &str) -> (r: Result<(), InvalidReplaceCapture>)
    ensures
        r is Ok <==> !has_ambiguous_capture(s.spec_bytes()),
        r matches Err(e) ==> e.describes(s.spec_bytes()),
{
    match first_ambiguous_capture(s.as_bytes()) {
        None => Ok(()),
        Some(c) => Err(
            InvalidReplaceCapture {
                template: s.to_owned(),
                ident_start: c.dollar + 1,
                ident_end: c.end,
                num_leading_digits: c.digits,
            },
        ),
    }
}

} // verus!
