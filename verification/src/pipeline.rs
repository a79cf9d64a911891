//! What happens around the search itself: which inputs there are, where
//! the results go, and what is reported at the end.

use crate::replacer::Outcome;
use vstd::prelude::*;
use vstd::string::{StrSliceExecFns, StringExecFns, StringSliceAdditionalSpecFns};
use vstd::utf8::encode_utf8;

verus! {

/// Where an input comes from. A path is held as text.
#[derive(Debug, PartialEq, Eq)]
pub enum Source {
    File(String),
    Stdin,
}

/// The inputs of a run: the files named, or standard input where none is.
pub open spec fn sources_of(files: Seq<String>) -> Seq<Source> {
    if files.len() == 0 {
        seq![Source::Stdin]
    } else {
        files.map_values(|path: String| Source::File(path))
    }
}

impl Source {
    /// One file source for each path, in the order given.
    pub fn from_paths(paths: Vec<String>) -> (sources: Vec<Source>)
        ensures
            sources@ == paths@.map_values(|path: String| Source::File(path)),
    {
        let mut sources: Vec<Source> = Vec::new();
        let mut i: usize = 0;
        while i < paths.len()
            invariant
                i <= paths@.len(),
                sources@ == paths@.take(i as int).map_values(|path: String| Source::File(path)),
            decreases paths@.len() - i,
        {
            sources.push(Source::File(paths[i].clone()));
            assert(paths@.take(i + 1) == paths@.take(i as int).push(paths@[i as int]));
            i += 1;
        }
        assert(paths@.take(i as int) == paths@);
        sources
    }

    /// Standard input as the only source.
    pub fn from_stdin() -> (sources: Vec<Source>)
        ensures
            sources@ == seq![Source::Stdin],
    {
        let mut sources: Vec<Source> = Vec::new();
        sources.push(Source::Stdin);
        sources
    }

    /// The sources of a run: the files named, or standard input where no
    /// file is named.
    pub fn from_files(files: Vec<String>) -> (sources: Vec<Source>)
        ensures
            sources@ == sources_of(files@),
    {
        if files.len() == 0 {
            Source::from_stdin()
        } else {
            Source::from_paths(files)
        }
    }

    /// The name under which a source is shown.
    pub open spec fn label(&self) -> Seq<char> {
        match self {
            Source::Stdin => seq!['S', 'T', 'D', 'I', 'N'],
            Source::File(path) => seq!['F', 'I', 'L', 'E', ' '] + path@,
        }
    }

    /// The name under which a source is shown: `STDIN`, or `FILE` and the
    /// path.
    pub fn display(&self) -> (shown: String)
        ensures
            shown@ == self.label(),
    {
        proof {
            reveal_strlit("STDIN");
            reveal_strlit("FILE ");
        }
        match self {
            Source::Stdin => {
                let shown = String::from_str("STDIN");
                assert(shown@ == seq!['S', 'T', 'D', 'I', 'N']);
                shown
            },
            Source::File(path) => {
                let shown = String::from_str("FILE ").concat(path.as_str());
                assert(shown@ == seq!['F', 'I', 'L', 'E', ' '] + path@);
                shown
            },
        }
    }

    /// The line that goes before the result of a source: its label between
    /// two rows of five dashes, and a newline.
    pub open spec fn heading(&self) -> Seq<char> {
        seq!['-', '-', '-', '-', '-', ' '] + self.label() + seq![' ', '-', '-', '-', '-', '-', '\n']
    }

    /// The line that goes before the result of a source in a preview of
    /// several sources.
    pub fn separator(&self) -> (line: String)
        ensures
            line@ == self.heading(),
    {
        proof {
            reveal_strlit("----- ");
            reveal_strlit(" -----\n");
        }
        let line = String::from_str("----- ").concat(self.display().as_str()).concat(" -----\n");
        assert(line@ == self.heading());
        line
    }
}

/// Where the results of a run go.
#[derive(Clone, Copy, Debug, PartialEq, Eq, Structural)]
pub enum OutputMode {
    /// To the output stream, in the order of the sources.
    Preview,
    /// Back into the files they came from.
    InPlace,
}

/// Some source is standard input.
pub open spec fn reads_stdin(sources: Seq<Source>) -> bool {
    exists|i: int| 0 <= i < sources.len() && #[trigger] sources[i] is Stdin
}

/// Results are previewed where that is asked for, and whenever a source is
/// standard input, which has no file to write back to.
pub fn output_mode(preview: bool, sources: &Vec<Source>) -> (mode: OutputMode)
    ensures
        mode == if preview || reads_stdin(sources@) {
            OutputMode::Preview
        } else {
            OutputMode::InPlace
        },
{
    if preview {
        return OutputMode::Preview;
    }
    let mut i: usize = 0;
    while i < sources.len()
        invariant
            i <= sources@.len(),
            forall|k: int| 0 <= k < i ==> !(#[trigger] sources@[k] is Stdin),
        decreases sources@.len() - i,
    {
        match &sources[i] {
            Source::Stdin => {
                return OutputMode::Preview;
            },
            Source::File(_) => {},
        }
        i += 1;
    }
    OutputMode::InPlace
}

/// A source together with what became of it.
#[derive(Debug, PartialEq, Eq)]
pub struct Processed {
    pub source: Source,
    pub outcome: Outcome,
}

/// What a preview shows of one source: its new content, after a heading
/// where the run has more than one source; nothing for a source without
/// new content.
pub open spec fn shown(item: Processed, many: bool) -> Seq<u8> {
    match item.outcome {
        Outcome::Replaced(bytes) => if many {
            encode_utf8(item.source.heading()) + bytes@
        } else {
            bytes@
        },
        _ => Seq::empty(),
    }
}

/// What a preview shows of the first `upto` sources of a run.
pub open spec fn preview_upto(items: Seq<Processed>, upto: int) -> Seq<u8>
    decreases upto,
{
    if upto <= 0 {
        Seq::empty()
    } else {
        preview_upto(items, upto - 1) + shown(items[upto - 1], items.len() > 1)
    }
}

/// What a preview shows of a run: the new contents in the order of the
/// sources.
pub open spec fn preview_of(items: Seq<Processed>) -> Seq<u8> {
    preview_upto(items, items.len() as int)
}

/// The bytes that a preview writes to the output stream.
pub fn preview(items: &Vec<Processed>) -> (stream: Vec<u8>)
    ensures
        stream@ == preview_of(items@),
{
    let many = items.len() > 1;
    let mut stream: Vec<u8> = Vec::new();
    let mut i: usize = 0;
    while i < items.len()
        invariant
            i <= items@.len(),
            many == (items@.len() > 1),
            stream@ == preview_upto(items@, i as int),
        decreases items@.len() - i,
    {
        match &items[i].outcome {
            Outcome::Replaced(bytes) => {
                if many {
                    let line = items[i].source.separator();
                    stream.extend_from_slice(line.as_str().as_bytes());
                }
                stream.extend_from_slice(bytes.as_slice());
            },
            _ => {},
        }
        i += 1;
    }
    stream
}

/// A source is written back exactly if it is a file and the search gave
/// new content for it.
pub open spec fn is_written_back(item: Processed) -> bool {
    item.source is File && item.outcome is Replaced
}

/// Only new content leaves the run: a source that was skipped, that holds
/// no match or on which the search failed is not written back, and a
/// preview shows nothing of it.
pub proof fn only_new_content_is_written(item: Processed, many: bool)
    requires
        !(item.outcome is Replaced),
    ensures
        !is_written_back(item),
        shown(item, many) == Seq::<u8>::empty(),
{
}

/// The sources of the items of a run.
pub open spec fn sources_in(items: Seq<Processed>) -> Seq<Source> {
    items.map_values(|item: Processed| item.source)
}

/// A run that writes in place loses no result: it has no source but files,
/// so every source with new content is written back.
pub proof fn in_place_loses_no_result(items: Seq<Processed>, i: int)
    requires
        !reads_stdin(sources_in(items)),
        0 <= i < items.len(),
        items[i].outcome is Replaced,
    ensures
        is_written_back(items[i]),
{
    assert(sources_in(items)[i] == items[i].source);
}

/// The positions of the sources that are written back, in rising order.
pub fn write_back_plan(items: &Vec<Processed>) -> (plan: Vec<usize>)
    ensures
        forall|k: int|
            0 <= k < plan@.len() ==> (#[trigger] plan@[k]) < items@.len() && is_written_back(
                items@[plan@[k] as int],
            ),
        forall|j: int, k: int|
            0 <= j < k < plan@.len() ==> (#[trigger] plan@[j]) < (#[trigger] plan@[k]),
        forall|i: int|
            0 <= i < items@.len() && is_written_back(#[trigger] items@[i]) ==> plan@.contains(
                i as usize,
            ),
{
    let mut plan: Vec<usize> = Vec::new();
    let mut i: usize = 0;
    while i < items.len()
        invariant
            i <= items@.len(),
            forall|k: int|
                0 <= k < plan@.len() ==> (#[trigger] plan@[k]) < i && is_written_back(
                    items@[plan@[k] as int],
                ),
            forall|j: int, k: int|
            0 <= j < k < plan@.len() ==> (#[trigger] plan@[j]) < (#[trigger] plan@[k]),
            forall|n: int|
                0 <= n < i && is_written_back(#[trigger] items@[n]) ==> plan@.contains(n as usize),
        decreases items@.len() - i,
    {
        let writes = match (&items[i].source, &items[i].outcome) {
            (Source::File(_), Outcome::Replaced(_)) => true,
            _ => false,
        };
        if writes {
            let ghost before = plan@;
            plan.push(i);
            proof {
                assert(plan@[plan@.len() - 1] == i);
                assert forall|n: int|
                    0 <= n < i + 1 && is_written_back(#[trigger] items@[n]) implies plan@.contains(
                    n as usize,
                ) by {
                    if n < i {
                        let k = choose|k: int| 0 <= k < before.len() && before[k] == n as usize;
                        assert(plan@[k] == n as usize);
                    }
                }
            }
        }
        i += 1;
    }
    plan
}

/// The size above which an input counts as large: one mebibyte.
pub const RESIDENT_LIMIT: usize = 1048576;

/// An input is held in memory whole, so one of more than a mebibyte is
/// worth a warning.
pub fn is_large(len: usize) -> (large: bool)
    ensures
        large == (len > RESIDENT_LIMIT),
{
    len > RESIDENT_LIMIT
}

} // verus!
