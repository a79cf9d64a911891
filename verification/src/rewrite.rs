//! Builds the output of one substitution pass from a buffer and the matches
//! found in it.
//!
//! The output grows by appending only: the bytes between two matches, an
//! optional start marker, the text that replaces the match, an optional end
//! marker, and at last the bytes after the final match.

use crate::color::{end_marker, highlight_end, highlight_start, start_marker};
use vstd::prelude::*;
use vstd::slice::slice_subrange;

verus! {

/// One match: where it lies in the buffer and the text that replaces it.
#[derive(Debug, PartialEq, Eq)]
pub struct Hit {
    /// Offset of the first matched byte.
    pub start: usize,
    /// Offset just past the last matched byte.
    pub end: usize,
    /// The replacement for this match, captures already filled in.
    pub text: Vec<u8>,
}

/// A match as contracts see it.
pub struct HitView {
    pub start: int,
    pub end: int,
    pub text: Seq<u8>,
}

impl View for Hit {
    type V = HitView;

    open spec fn view(&self) -> HitView {
        HitView { start: self.start as int, end: self.end as int, text: self.text@ }
    }
}

/// The matches of a buffer as contracts see them.
pub open spec fn hit_views(hits: Seq<Hit>) -> Seq<HitView> {
    hits.map_values(|h: Hit| h@)
}

/// Spans as contracts see them.
pub open spec fn span_views(spans: Seq<(usize, usize)>) -> Seq<(int, int)> {
    spans.map_values(|s: (usize, usize)| (s.0 as int, s.1 as int))
}

/// Every span replaced by the same text.
pub open spec fn stamped(spans: Seq<(int, int)>, text: Seq<u8>) -> Seq<HitView> {
    spans.map_values(|s: (int, int)| HitView { start: s.0, end: s.1, text })
}

/// The matches lie inside a buffer of `len` bytes, from left to right,
/// without overlap.
pub open spec fn in_order(hits: Seq<HitView>, len: int) -> bool {
    &&& forall|i: int| 0 <= i < hits.len() ==> 0 <= (#[trigger] hits[i]).start <= hits[i].end <= len
    &&& forall|i: int, j: int|
        0 <= i < j < hits.len() ==> (#[trigger] hits[i]).end <= (#[trigger] hits[j]).start
}

/// The matches that a pass replaces: all of them where the ceiling is 0,
/// else the first `ceiling`.
pub open spec fn replaced_hits(hits: Seq<HitView>, ceiling: nat) -> Seq<HitView> {
    if ceiling == 0 || ceiling >= hits.len() {
        hits
    } else {
        hits.take(ceiling as int)
    }
}

/// How far into the buffer the matches reach: the end of the last one.
pub open spec fn consumed(hits: Seq<HitView>) -> int {
    if hits.len() == 0 {
        0
    } else {
        hits.last().end
    }
}

/// What one match adds to the output. `from` is where the match before it
/// ended.
pub open spec fn piece(
    buffer: Seq<u8>,
    from: int,
    hit: HitView,
    only_matched: bool,
    colorize: bool,
) -> Seq<u8> {
    if only_matched {
        hit.text
    } else if colorize {
        buffer.subrange(from, hit.start) + highlight_start() + hit.text + highlight_end()
    } else {
        buffer.subrange(from, hit.start) + hit.text
    }
}

/// The output up to and including the last of `hits`.
pub open spec fn emitted(
    buffer: Seq<u8>,
    hits: Seq<HitView>,
    only_matched: bool,
    colorize: bool,
) -> Seq<u8>
    decreases hits.len(),
{
    if hits.len() == 0 {
        Seq::empty()
    } else {
        emitted(buffer, hits.drop_last(), only_matched, colorize) + piece(
            buffer,
            consumed(hits.drop_last()),
            hits.last(),
            only_matched,
            colorize,
        )
    }
}

/// What is appended after the last replaced match: the rest of the buffer,
/// or nothing in only-matched mode.
pub open spec fn tail(buffer: Seq<u8>, hits: Seq<HitView>, only_matched: bool) -> Seq<u8> {
    if only_matched {
        Seq::empty()
    } else {
        buffer.skip(consumed(hits))
    }
}

/// The result of one pass over `buffer`: nothing where there is no match,
/// else the pieces of the replaced matches followed by the tail.
pub open spec fn rewritten(
    buffer: Seq<u8>,
    hits: Seq<HitView>,
    ceiling: nat,
    only_matched: bool,
    colorize: bool,
) -> Option<Seq<u8>> {
    if hits.len() == 0 {
        None
    } else {
        let used = replaced_hits(hits, ceiling);
        Some(emitted(buffer, used, only_matched, colorize) + tail(buffer, used, only_matched))
    }
}

/// The texts of the matches, one after the other.
pub open spec fn texts(hits: Seq<HitView>) -> Seq<u8>
    decreases hits.len(),
{
    if hits.len() == 0 {
        Seq::empty()
    } else {
        texts(hits.drop_last()) + hits.last().text
    }
}

/// Every match is replaced by the bytes it matched.
pub open spec fn replaces_like_with_like(buffer: Seq<u8>, hits: Seq<HitView>) -> bool {
    forall|i: int|
        0 <= i < hits.len() ==> (#[trigger] hits[i]).text == buffer.subrange(
            hits[i].start,
            hits[i].end,
        )
}

/// A pass gives no output exactly if the buffer holds no match, whatever
/// the ceiling and the mode. A match whose replacement leaves the buffer as
/// it was still gives output.
pub proof fn no_output_without_match(
    buffer: Seq<u8>,
    hits: Seq<HitView>,
    ceiling: nat,
    only_matched: bool,
    colorize: bool,
)
    ensures
        rewritten(buffer, hits, ceiling, only_matched, colorize) is None <==> hits.len() == 0,
{
}

/// In only-matched mode the output is the replacement texts of the
/// replaced matches and nothing else: no byte of the buffer, no marker, no
/// separator.
pub proof fn only_matched_keeps_texts_only(
    buffer: Seq<u8>,
    hits: Seq<HitView>,
    ceiling: nat,
    colorize: bool,
)
    requires
        hits.len() > 0,
    ensures
        rewritten(buffer, hits, ceiling, true, colorize) == Some(
            texts(replaced_hits(hits, ceiling)),
        ),
{
    lemma_emitted_texts(buffer, replaced_hits(hits, ceiling), colorize);
}

proof fn lemma_emitted_texts(buffer: Seq<u8>, hits: Seq<HitView>, colorize: bool)
    ensures
        emitted(buffer, hits, true, colorize) == texts(hits),
    decreases hits.len(),
{
    if hits.len() > 0 {
        lemma_emitted_texts(buffer, hits.drop_last(), colorize);
    }
}

/// A ceiling that the matches do not reach is no ceiling.
pub proof fn ceiling_not_reached(
    buffer: Seq<u8>,
    hits: Seq<HitView>,
    ceiling: nat,
    only_matched: bool,
    colorize: bool,
)
    requires
        ceiling >= hits.len(),
    ensures
        rewritten(buffer, hits, ceiling, only_matched, colorize) == rewritten(
            buffer,
            hits,
            0,
            only_matched,
            colorize,
        ),
{
}

/// Under a ceiling the pass stops after that many matches: what it gives is
/// what it would give if the matches after them were not there.
pub proof fn ceiling_cuts_off(
    buffer: Seq<u8>,
    hits: Seq<HitView>,
    ceiling: nat,
    only_matched: bool,
    colorize: bool,
)
    requires
        0 < ceiling <= hits.len(),
    ensures
        rewritten(buffer, hits, ceiling, only_matched, colorize) == rewritten(
            buffer,
            hits.take(ceiling as int),
            0,
            only_matched,
            colorize,
        ),
{
    assert(hits.take(hits.len() as int) == hits);
}

/// Matches that lie in order still do when the last of them are left out.
pub proof fn in_order_holds_of_first(hits: Seq<HitView>, len: int, first: int)
    requires
        in_order(hits, len),
        0 <= first <= hits.len(),
    ensures
        in_order(hits.take(first), len),
{
    let kept = hits.take(first);
    assert forall|i: int| 0 <= i < kept.len() implies 0 <= (#[trigger] kept[i]).start
        <= kept[i].end <= len by {
        assert(kept[i] == hits[i]);
    }
    assert forall|i: int, j: int| 0 <= i < j < kept.len() implies (#[trigger] kept[i]).end <= (
    #[trigger] kept[j]).start by {
        assert(kept[i] == hits[i]);
        assert(kept[j] == hits[j]);
    }
}

/// The output grows by appending only: what the first matches gave stays
/// as it is, at the front, whatever comes after them.
pub proof fn output_only_grows(
    buffer: Seq<u8>,
    hits: Seq<HitView>,
    first: int,
    only_matched: bool,
    colorize: bool,
)
    requires
        0 <= first <= hits.len(),
    ensures
        emitted(buffer, hits.take(first), only_matched, colorize).is_prefix_of(
            emitted(buffer, hits, only_matched, colorize),
        ),
    decreases hits.len(),
{
    if first == hits.len() {
        assert(hits.take(first) == hits);
    } else {
        assert(hits.drop_last().take(first) == hits.take(first));
        output_only_grows(buffer, hits.drop_last(), first, only_matched, colorize);
    }
}

/// Bytes outside the replaced matches are kept as they are: where every
/// match is replaced by the bytes it matched, a plain pass gives the buffer
/// back.
pub proof fn like_with_like_changes_nothing(buffer: Seq<u8>, hits: Seq<HitView>, ceiling: nat)
    requires
        hits.len() > 0,
        in_order(hits, buffer.len() as int),
        replaces_like_with_like(buffer, hits),
    ensures
        rewritten(buffer, hits, ceiling, false, false) == Some(buffer),
{
    let used = replaced_hits(hits, ceiling);
    lemma_like_with_like(buffer, used);
    assert(buffer.take(consumed(used)) + buffer.skip(consumed(used)) == buffer);
}

proof fn lemma_like_with_like(buffer: Seq<u8>, hits: Seq<HitView>)
    requires
        in_order(hits, buffer.len() as int),
        replaces_like_with_like(buffer, hits),
    ensures
        0 <= consumed(hits) <= buffer.len(),
        emitted(buffer, hits, false, false) == buffer.take(consumed(hits)),
    decreases hits.len(),
{
    if hits.len() > 0 {
        let before = hits.drop_last();
        let hit = hits.last();
        assert(hit == hits[hits.len() - 1]);
        assert forall|i: int| 0 <= i < before.len() implies (#[trigger] before[i]).text
            == buffer.subrange(before[i].start, before[i].end) by {
            assert(before[i] == hits[i]);
        }
        in_order_holds_of_first(hits, buffer.len() as int, hits.len() - 1);
        assert(hits.take(hits.len() - 1) == before);
        lemma_like_with_like(buffer, before);
        if before.len() > 0 {
            assert(before.last() == hits[hits.len() - 2]);
            assert(hits[hits.len() - 2].end <= hits[hits.len() - 1].start);
        }
        let from = consumed(before);
        assert(buffer.take(from) + buffer.subrange(from, hit.start) + buffer.subrange(
            hit.start,
            hit.end,
        ) == buffer.take(hit.end));
    }
}

/// The bytes of an optional buffer.
pub open spec fn bytes_of(buffer: Option<Vec<u8>>) -> Option<Seq<u8>> {
    match buffer {
        Some(b) => Some(b@),
        None => None,
    }
}

/// Gives every span the same replacement text.
pub fn stamp(spans: &Vec<(usize, usize)>, text: &Vec<u8>) -> (hits: Vec<Hit>)
    ensures
        hit_views(hits@) == stamped(span_views(spans@), text@),
{
    let mut hits: Vec<Hit> = Vec::new();
    let mut i: usize = 0;
    while i < spans.len()
        invariant
            i <= spans@.len(),
            hits@.len() == i,
            forall|k: int|
                0 <= k < i ==> (#[trigger] hits@[k])@ == (HitView {
                    start: spans@[k].0 as int,
                    end: spans@[k].1 as int,
                    text: text@,
                }),
        decreases spans@.len() - i,
    {
        let copy = text.clone();
        assert(copy@ == text@);
        hits.push(Hit { start: spans[i].0, end: spans[i].1, text: copy });
        i += 1;
    }
    assert(hit_views(hits@) =~= stamped(span_views(spans@), text@));
    hits
}

/// Tells whether the matches lie inside a buffer of `len` bytes, from left
/// to right, without overlap.
pub fn hits_in_order(hits: &Vec<Hit>, len: usize) -> (ok: bool)
    ensures
        ok == in_order(hit_views(hits@), len as int),
{
    let ghost views = hit_views(hits@);
    let mut floor: usize = 0;
    let mut i: usize = 0;
    while i < hits.len()
        invariant
            views == hit_views(hits@),
            i <= hits@.len(),
            floor <= len,
            in_order(views.take(i as int), len as int),
            floor == consumed(views.take(i as int)),
        decreases hits@.len() - i,
    {
        let ghost seen = views.take(i as int);
        let ghost next = views.take(i + 1);
        assert(views[i as int] == hits@[i as int]@);
        if hits[i].start < floor || hits[i].end < hits[i].start || hits[i].end > len {
            proof {
                if in_order(views, len as int) {
                    if i > 0 {
                        assert(seen.last() == views[i - 1]);
                        assert(views[i - 1].end <= views[i as int].start);
                    }
                }
            }
            return false;
        }
        proof {
            assert(next.drop_last() == seen);
            assert forall|a: int, b: int| 0 <= a < b < next.len() implies (#[trigger] next[a]).end
                <= (#[trigger] next[b]).start by {
                if b < i {
                    assert(seen[a].end <= seen[b].start);
                } else if i > 0 {
                    assert(seen[a].end <= seen[i - 1].end) by {
                        if a < i - 1 {
                            assert(seen[a].end <= seen[i - 1].start);
                        }
                    }
                }
            }
        }
        floor = hits[i].end;
        i += 1;
    }
    assert(views.take(i as int) == views);
    true
}

/// Builds the output of one pass. Matches are taken from left to right; a
/// ceiling above 0 stops the pass after that many. Nothing comes back where
/// there is no match at all.
pub fn assemble(
    buffer: &[u8],
    hits: &Vec<Hit>,
    ceiling: usize,
    only_matched: bool,
    colorize: bool,
) -> (out: Option<Vec<u8>>)
    requires
        in_order(hit_views(hits@), buffer@.len() as int),
    ensures
        bytes_of(out) == rewritten(
            buffer@,
            hit_views(hits@),
            ceiling as nat,
            only_matched,
            colorize,
        ),
{
    if hits.len() == 0 {
        return None;
    }
    let ghost views = hit_views(hits@);
    let count: usize = if ceiling == 0 || ceiling >= hits.len() {
        hits.len()
    } else {
        ceiling
    };
    let ghost used = replaced_hits(views, ceiling as nat);
    assert(used == views.take(count as int));
    let mut new: Vec<u8> = Vec::new();
    let mut last_match: usize = 0;
    let mut i: usize = 0;
    while i < count
        invariant
            views == hit_views(hits@),
            in_order(views, buffer@.len() as int),
            count <= hits@.len(),
            i <= count,
            last_match == consumed(views.take(i as int)),
            last_match <= buffer@.len(),
            new@ == emitted(buffer@, views.take(i as int), only_matched, colorize),
        decreases count - i,
    {
        let hit = &hits[i];
        proof {
            assert(views[i as int] == hit@);
            assert(views.take(i + 1).drop_last() == views.take(i as int));
            assert(views.take(i + 1).last() == hit@);
            if i > 0 {
                assert(views.take(i as int).last() == views[i - 1]);
                assert(views[i - 1].end <= views[i as int].start);
            }
        }
        if !only_matched {
            new.extend_from_slice(slice_subrange(buffer, last_match, hit.start));
            if colorize {
                let marker = start_marker();
                new.extend_from_slice(marker.as_slice());
            }
        }
        new.extend_from_slice(hit.text.as_slice());
        if !only_matched && colorize {
            let marker = end_marker();
            new.extend_from_slice(marker.as_slice());
        }
        last_match = hit.end;
        i += 1;
    }
    if !only_matched {
        new.extend_from_slice(slice_subrange(buffer, last_match, buffer.len()));
    }
    Some(new)
}

} // verus!
