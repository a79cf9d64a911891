use sd::constrained::RegexReplacer;
use sd::error::CompileError;
use sd::expressive::{FancyReplacer, MatchFailure};
use sd::flags::Dialect;
use sd::replacer::{Outcome, Replacer};
use sd::rewrite::Hit;

fn constrained(look_for: &str, replace_with: &str, literal: bool, flags: Option<&str>, ceiling: usize) -> RegexReplacer {
    RegexReplacer::new(
        look_for.to_string(),
        replace_with.to_string(),
        literal,
        flags.map(ToOwned::to_owned),
        ceiling,
    )
    .unwrap()
}

fn expressive(look_for: &str, replace_with: &str, literal: bool, flags: Option<&str>, ceiling: usize) -> FancyReplacer {
    FancyReplacer::new(
        look_for.to_string(),
        replace_with.to_string(),
        literal,
        flags.map(ToOwned::to_owned),
        ceiling,
    )
    .unwrap()
}

fn both(look_for: &str, replace_with: &str, literal: bool, flags: Option<&str>, ceiling: usize, only_matched: bool, src: &str) -> (Option<String>, Option<String>) {
    let bytes = constrained(look_for, replace_with, literal, flags, ceiling)
        .replace(src.as_bytes(), only_matched, false)
        .map(|out| String::from_utf8(out).unwrap());
    let text = expressive(look_for, replace_with, literal, flags, ceiling).replace(src, only_matched, false);
    (bytes, text)
}

fn same(look_for: &str, replace_with: &str, literal: bool, flags: Option<&str>, ceiling: usize, only_matched: bool, src: &str) -> Option<String> {
    let (bytes, text) = both(look_for, replace_with, literal, flags, ceiling, only_matched, src);
    assert_eq!(bytes, text);
    bytes
}

#[test]
fn no_match_gives_nothing() {
    assert_eq!(same("z", "b", false, None, 0, false, "aaa"), None);
    assert_eq!(same("z", "b", false, None, 0, true, "aaa"), None);
    assert_eq!(same("z", "b", true, None, 3, false, ""), None);
}

#[test]
fn match_with_equal_output_is_still_a_match() {
    assert_eq!(same("a", "a", false, None, 0, false, "aaa"), Some("aaa".to_string()));
}

#[test]
fn unlimited_ceiling_replaces_all() {
    assert_eq!(same("a", "b", false, None, 0, false, "aaa"), Some("bbb".to_string()));
}

#[test]
fn ceiling_one_replaces_first_only() {
    assert_eq!(same("a", "b", false, None, 1, false, "aaa"), Some("baa".to_string()));
}

#[test]
fn ceiling_two_replaces_first_two() {
    assert_eq!(same("a", "b", false, None, 2, false, "aaa"), Some("bba".to_string()));
    assert_eq!(same("a", "b", false, None, 2, false, "xaxaxax"), Some("xbxbxax".to_string()));
}

#[test]
fn ceiling_above_count_replaces_all() {
    assert_eq!(same("a", "b", false, None, 7, false, "aaa"), Some("bbb".to_string()));
    assert_eq!(same("a", "b", false, None, 3, false, "aaa"), Some("bbb".to_string()));
}

#[test]
fn only_matched_emits_replacements_only() {
    assert_eq!(same("a", "b", false, None, 0, true, "aaa"), Some("bbb".to_string()));
    assert_eq!(same("a", "b", false, None, 0, true, "xaybazc"), Some("bb".to_string()));
    assert_eq!(same("a", "b", false, None, 1, true, "xaybazc"), Some("b".to_string()));
}

#[test]
fn captures_are_filled_in() {
    assert_eq!(
        same(r"(\w+)@(\w+)", "$2 at ${1}!", false, None, 0, false, "joe@home, amy@work"),
        Some("home at joe!, work at amy!".to_string())
    );
    assert_eq!(
        same(r"(?P<user>\w+)@(?P<host>\w+)", "$host/$user", false, None, 0, true, "joe@home, amy@work"),
        Some("home/joework/amy".to_string())
    );
}

#[test]
fn literal_mode_takes_dollar_as_it_is() {
    assert_eq!(same("a", "$0$1a", true, None, 0, false, "bab"), Some("b$0$1ab".to_string()));
}

#[test]
fn literal_mode_escapes_the_pattern() {
    assert_eq!(same("a.c", "x", true, None, 0, false, "abc a.c"), Some("abc x".to_string()));
    assert_eq!(same("a.c", "x", false, None, 0, false, "abc a.c"), Some("x x".to_string()));
    assert_eq!(same("1+1", "2", true, None, 0, false, "1+1=11"), Some("2=11".to_string()));
}

#[test]
fn template_is_unescaped_unless_literal() {
    assert_eq!(same("-", r"\t", false, None, 0, false, "a-b"), Some("a\tb".to_string()));
    assert_eq!(same("-", r"\t", true, None, 0, false, "a-b"), Some("a\\tb".to_string()));
}

#[test]
fn template_that_cannot_be_unescaped_is_kept_raw() {
    assert_eq!(same("-", r"\d", false, None, 0, false, "a-b"), Some("a\\db".to_string()));
    assert_eq!(same("-", "x\\", false, None, 0, false, "a-b"), Some("ax\\b".to_string()));
}

#[test]
fn ambiguous_capture_is_refused_before_compiling() {
    let r = RegexReplacer::new("(".to_string(), "$1a".to_string(), false, None, 0);
    assert!(matches!(r, Err(CompileError::InvalidCapture(_))));
    let r = FancyReplacer::new("(".to_string(), "$1a".to_string(), false, None, 0);
    assert!(matches!(r, Err(CompileError::InvalidCapture(_))));
    match RegexReplacer::new("a".to_string(), "x$12ab c".to_string(), false, None, 0) {
        Err(CompileError::InvalidCapture(e)) => {
            assert_eq!(e.template, "x$12ab c");
            assert_eq!(e.ident_start, 2);
            assert_eq!(e.ident_end, 6);
            assert_eq!(e.num_leading_digits, 2);
        }
        _ => panic!("the template must be refused"),
    }
}

#[test]
fn ambiguous_capture_passes_in_literal_mode() {
    assert_eq!(same("a", "$1a", true, None, 0, false, "a"), Some("$1a".to_string()));
}

#[test]
fn bad_pattern_is_a_compile_error() {
    let r = RegexReplacer::new("(".to_string(), "x".to_string(), false, None, 0);
    assert!(matches!(r, Err(CompileError::Regex(_))));
    let r = FancyReplacer::new("(".to_string(), "x".to_string(), false, None, 0);
    assert!(matches!(r, Err(CompileError::Fancy(_))));
    let r = RegexReplacer::new("(".to_string(), "x".to_string(), true, None, 0);
    assert!(r.is_ok());
    let r = FancyReplacer::new("(".to_string(), "x".to_string(), true, None, 0);
    assert!(r.is_ok());
}

#[test]
fn look_around_needs_the_expressive_dialect() {
    let r = RegexReplacer::new("a(?=b)".to_string(), "x".to_string(), false, None, 0);
    assert!(matches!(r, Err(CompileError::Regex(_))));
    let replacer = expressive("a(?=b)", "x", false, None, 0);
    assert_eq!(replacer.replace("ab ac ab", false, false), Some("xb ac xb".to_string()));
}

#[test]
fn case_flags() {
    assert_eq!(same("abc", "x", false, Some("i"), 0, false, "abcABC"), Some("xx".to_string()));
    assert_eq!(same("abc", "x", false, Some("c"), 0, false, "abcABC"), Some("xABC".to_string()));
    assert_eq!(same("abc", "x", false, Some("ic"), 0, false, "abcABC"), Some("xABC".to_string()));
    assert_eq!(same("abc", "x", false, Some("ci"), 0, false, "abcABC"), Some("xx".to_string()));
}

#[test]
fn unknown_flags_are_skipped() {
    assert_eq!(same("abc", "x", false, Some("zi?q"), 0, false, "abcABC"), Some("xx".to_string()));
    assert_eq!(same("abc", "x", false, Some(""), 0, false, "abcABC"), Some("xABC".to_string()));
}

#[test]
fn word_flag_wraps_pattern() {
    assert_eq!(same("abc", "def", false, Some("w"), 0, false, "abcd abc"), Some("abcd def".to_string()));
    assert_eq!(same("abc", "def", false, Some("w"), 0, false, "abcd"), None);
    assert_eq!(same("a.c", "x", true, Some("w"), 0, false, "a.cd a.c abc"), Some("a.cd x abc".to_string()));
}

#[test]
fn word_flag_drops_flags_before_it() {
    assert_eq!(same("abc", "x", false, Some("iw"), 0, false, "ABC abc"), Some("ABC x".to_string()));
    assert_eq!(same("abc", "x", false, Some("wi"), 0, false, "ABC abc"), Some("x x".to_string()));
}

#[test]
fn constrained_line_anchors() {
    let by_line = constrained("^a", "x", false, None, 0);
    assert_eq!(by_line.replace(b"a\na", false, false), Some(b"x\nx".to_vec()));
    let whole = constrained("^a", "x", false, Some("e"), 0);
    assert_eq!(whole.replace(b"a\na", false, false), Some(b"x\na".to_vec()));
    let after_word = constrained("^a", "x", false, Some("w"), 0);
    assert_eq!(after_word.replace(b"a\na", false, false), Some(b"x\na".to_vec()));
}

#[test]
fn constrained_dot_flag() {
    let plain = constrained("a.b", "x", false, None, 0);
    assert_eq!(plain.replace(b"a\nb", false, false), None);
    let dot_all = constrained("a.b", "x", false, Some("s"), 0);
    assert_eq!(dot_all.replace(b"a\nb", false, false), Some(b"x".to_vec()));
}

#[test]
fn constrained_dot_flag_ends_multi_line_unless_m_is_there() {
    let dot_all = constrained("^a", "x", false, Some("s"), 0);
    assert_eq!(dot_all.replace(b"a\na", false, false), Some(b"x\na".to_vec()));
    let kept = constrained("^a", "x", false, Some("sm"), 0);
    assert_eq!(kept.replace(b"a\na", false, false), Some(b"x\nx".to_vec()));
    let kept = constrained("^a", "x", false, Some("ms"), 0);
    assert_eq!(kept.replace(b"a\na", false, false), Some(b"x\nx".to_vec()));
}

#[test]
fn expressive_ignores_line_and_dot_flags() {
    let plain = expressive("^a", "x", false, None, 0);
    assert_eq!(plain.replace("a\na", false, false), Some("x\na".to_string()));
    let flagged = expressive("^a", "x", false, Some("es"), 0);
    assert_eq!(flagged.replace("a\na", false, false), Some("x\na".to_string()));
    let dot = expressive("a.b", "x", false, Some("s"), 0);
    assert_eq!(dot.replace("a\nb", false, false), None);
}

#[test]
fn constrained_works_on_bytes_that_are_no_text() {
    let replacer = constrained("a", "b", false, None, 0);
    assert_eq!(replacer.replace(&[0xff, 0x61, 0xfe], false, false), Some(vec![0xff, 0x62, 0xfe]));
}

#[test]
fn constrained_find_reports_spans_and_texts() {
    let replacer = constrained("(a)(b)?", "<$1$2>", false, None, 0);
    assert_eq!(
        replacer.find(b"ab a"),
        vec![
            Hit { start: 0, end: 2, text: b"<ab>".to_vec() },
            Hit { start: 3, end: 4, text: b"<a>".to_vec() },
        ]
    );
    let literal = constrained("a", "$1", true, None, 0);
    assert_eq!(
        literal.find(b"ab a"),
        vec![
            Hit { start: 0, end: 1, text: b"$1".to_vec() },
            Hit { start: 3, end: 4, text: b"$1".to_vec() },
        ]
    );
}

#[test]
fn expressive_find_counts_bytes() {
    let replacer = expressive("é", "[$0]", false, None, 0);
    let (hits, failure) = replacer.find("aé é");
    assert_eq!(failure, None);
    assert_eq!(
        hits,
        vec![
            Hit { start: 1, end: 3, text: "[é]".as_bytes().to_vec() },
            Hit { start: 4, end: 6, text: "[é]".as_bytes().to_vec() },
        ]
    );
    assert_eq!(replacer.replace("aé é", false, false), Some("a[é] [é]".to_string()));
}

#[test]
fn empty_matches_are_replaced_between_characters() {
    assert_eq!(same("x*", "-", false, None, 0, false, "ab"), Some("-a-b-".to_string()));
    assert_eq!(same("x*", "-", false, None, 2, false, "ab"), Some("-a-b".to_string()));
}

#[test]
fn colored_replacement_is_marked() {
    let replacer = constrained("a", "b", false, None, 0);
    assert_eq!(
        replacer.replace(b"xax", false, true),
        Some(b"x\x1b[34mb\x1b[0mx".to_vec())
    );
    assert_eq!(replacer.replace(b"xax", true, true), Some(b"b".to_vec()));
    let replacer = expressive("a", "b", false, None, 0);
    assert_eq!(
        replacer.replace("xax", false, true),
        Some("x\x1b[34mb\x1b[0mx".to_string())
    );
}

const RUNAWAY: &str = "(x+x+)+(?>y)";

fn many_x() -> String {
    "x".repeat(40)
}

#[test]
fn engine_failure_is_told_from_no_match() {
    let replacer = expressive(RUNAWAY, "z", false, None, 0);
    let text = many_x();
    assert!(matches!(replacer.try_replace(&text, false, false), Err(MatchFailure::Engine(_))));
    assert_eq!(replacer.replace(&text, false, false), None);
    assert_eq!(replacer.try_replace("abc", false, false), Ok(None));
    assert_eq!(replacer.try_replace("xxy", false, false), Ok(Some("z".to_string())));
}

#[test]
fn literal_pattern_cannot_run_away() {
    let replacer = expressive(RUNAWAY, "z", true, None, 0);
    let text = many_x();
    assert_eq!(replacer.try_replace(&text, false, false), Ok(None));
}

#[test]
fn engine_failure_behind_the_ceiling_is_not_reached() {
    let text = format!("xxy {}", many_x());
    let stopped = expressive(RUNAWAY, "z", false, None, 1);
    assert_eq!(stopped.try_replace(&text, false, false), Ok(Some(format!("z {}", many_x()))));
    let unlimited = expressive(RUNAWAY, "z", false, None, 0);
    assert!(matches!(unlimited.try_replace(&text, false, false), Err(MatchFailure::Engine(_))));
    let further = expressive(RUNAWAY, "z", false, None, 2);
    assert!(matches!(further.try_replace(&text, false, false), Err(MatchFailure::Engine(_))));
    let (hits, failure) = unlimited.find(&text);
    assert_eq!(hits, vec![Hit { start: 0, end: 3, text: b"z".to_vec() }]);
    assert!(failure.is_some());
}

#[test]
fn expressive_replacen_on_given_hits() {
    let hits = vec![
        Hit { start: 0, end: 1, text: b"b".to_vec() },
        Hit { start: 2, end: 3, text: b"c".to_vec() },
    ];
    assert_eq!(FancyReplacer::replacen(&hits, None, 0, "aaa", false, false), Ok(Some("bac".to_string())));
    assert_eq!(FancyReplacer::replacen(&hits, None, 1, "aaa", false, false), Ok(Some("baa".to_string())));
    assert_eq!(FancyReplacer::replacen(&hits, None, 0, "aaa", false, true), Ok(Some("bc".to_string())));
    assert_eq!(FancyReplacer::replacen(&Vec::new(), None, 0, "aaa", false, false), Ok(None));
    assert_eq!(
        FancyReplacer::replacen(&hits, Some("gave up".to_string()), 0, "aaa", false, false),
        Err(MatchFailure::Engine("gave up".to_string()))
    );
    assert_eq!(
        FancyReplacer::replacen(&hits, Some("gave up".to_string()), 3, "aaa", false, false),
        Err(MatchFailure::Engine("gave up".to_string()))
    );
    assert_eq!(
        FancyReplacer::replacen(&hits, Some("gave up".to_string()), 2, "aaa", false, false),
        Ok(Some("bac".to_string()))
    );
    assert_eq!(
        FancyReplacer::replacen(&hits, Some("gave up".to_string()), 1, "aaa", false, false),
        Ok(Some("baa".to_string()))
    );
    assert_eq!(
        FancyReplacer::replacen(&Vec::new(), Some("gave up".to_string()), 1, "aaa", false, false),
        Err(MatchFailure::Engine("gave up".to_string()))
    );
}

#[test]
fn expressive_replacen_refuses_what_cannot_be_acted_on() {
    let overlapping = vec![
        Hit { start: 0, end: 2, text: b"b".to_vec() },
        Hit { start: 1, end: 3, text: b"c".to_vec() },
    ];
    assert_eq!(FancyReplacer::replacen(&overlapping, None, 0, "aaa", false, false), Err(MatchFailure::Inconsistent));
    let outside = vec![Hit { start: 2, end: 4, text: b"b".to_vec() }];
    assert_eq!(FancyReplacer::replacen(&outside, None, 0, "aaa", false, false), Err(MatchFailure::Inconsistent));
    let backwards = vec![Hit { start: 2, end: 1, text: b"b".to_vec() }];
    assert_eq!(FancyReplacer::replacen(&backwards, None, 0, "aaa", false, false), Err(MatchFailure::Inconsistent));
    let inside_a_character = vec![Hit { start: 1, end: 2, text: b"b".to_vec() }];
    assert_eq!(FancyReplacer::replacen(&inside_a_character, None, 0, "é", false, false), Err(MatchFailure::Inconsistent));
    let no_text = vec![Hit { start: 0, end: 1, text: vec![0xff] }];
    assert_eq!(FancyReplacer::replacen(&no_text, None, 0, "aaa", false, false), Err(MatchFailure::Inconsistent));
}

#[test]
fn constrained_replacen_on_given_hits() {
    let hits = vec![
        Hit { start: 0, end: 1, text: b"b".to_vec() },
        Hit { start: 2, end: 3, text: b"c".to_vec() },
    ];
    assert_eq!(RegexReplacer::replacen(&hits, 0, b"aaa", false, false), Some(b"bac".to_vec()));
    assert_eq!(RegexReplacer::replacen(&hits, 1, b"aaa", false, false), Some(b"baa".to_vec()));
    assert_eq!(RegexReplacer::replacen(&hits, 2, b"aaa", false, true), Some(b"bc".to_vec()));
    assert_eq!(
        RegexReplacer::replacen(&hits, 1, b"aaa", true, false),
        Some(b"\x1b[34mb\x1b[0maa".to_vec())
    );
    assert_eq!(RegexReplacer::replacen(&Vec::new(), 0, b"aaa", false, false), None);
    let no_text = vec![Hit { start: 1, end: 2, text: vec![0xff] }];
    assert_eq!(RegexReplacer::replacen(&no_text, 0, "é".as_bytes(), false, false), Some(vec![0xc3, 0xff]));
}

#[test]
fn constrained_replacen_does_not_act_on_hits_out_of_order() {
    let overlapping = vec![
        Hit { start: 0, end: 2, text: b"b".to_vec() },
        Hit { start: 1, end: 3, text: b"c".to_vec() },
    ];
    assert_eq!(RegexReplacer::replacen(&overlapping, 0, b"aaa", false, false), None);
    let outside = vec![Hit { start: 2, end: 4, text: b"b".to_vec() }];
    assert_eq!(RegexReplacer::replacen(&outside, 0, b"aaa", false, false), None);
}

#[test]
fn front_picks_the_dialect() {
    let plain = Replacer::new(Dialect::Constrained, "a(?=b)".to_string(), "x".to_string(), false, None, 0);
    assert!(matches!(plain, Err(CompileError::Regex(_))));
    let fancy = Replacer::new(Dialect::Expressive, "a(?=b)".to_string(), "x".to_string(), false, None, 0).unwrap();
    assert!(matches!(fancy, Replacer::Expressive(_)));
    assert_eq!(fancy.apply(b"ab ac", false, false), Outcome::Replaced(b"xb ac".to_vec()));
    let plain = Replacer::new(Dialect::Constrained, "a".to_string(), "x".to_string(), false, None, 0).unwrap();
    assert!(matches!(plain, Replacer::Constrained(_)));
    assert_eq!(plain.apply(b"ab ac", false, false), Outcome::Replaced(b"xb xc".to_vec()));
    assert_eq!(plain.apply(b"zzz", false, false), Outcome::NoMatch);
    assert_eq!(fancy.apply(b"zzz", false, false), Outcome::NoMatch);
    let bad = Replacer::new(Dialect::Expressive, "a".to_string(), "$1a".to_string(), false, None, 0);
    assert!(matches!(bad, Err(CompileError::InvalidCapture(_))));
}

#[test]
fn expressive_front_needs_text() {
    let fancy = Replacer::new(Dialect::Expressive, "a".to_string(), "x".to_string(), false, None, 0).unwrap();
    assert_eq!(fancy.apply(&[0x61, 0xff], false, false), Outcome::Failed(MatchFailure::NotText));
    let plain = Replacer::new(Dialect::Constrained, "a".to_string(), "x".to_string(), false, None, 0).unwrap();
    assert_eq!(plain.apply(&[0x61, 0xff], false, false), Outcome::Replaced(vec![0x78, 0xff]));
}

#[test]
fn front_reports_engine_failure() {
    let fancy = Replacer::new(Dialect::Expressive, RUNAWAY.to_string(), "z".to_string(), false, None, 0).unwrap();
    assert!(matches!(
        fancy.apply(many_x().as_bytes(), false, false),
        Outcome::Failed(MatchFailure::Engine(_))
    ));
}

#[test]
fn batch_equals_one_by_one() {
    for dialect in [Dialect::Constrained, Dialect::Expressive] {
        let replacer = Replacer::new(dialect, "a+".to_string(), "<$0>".to_string(), false, None, 2).unwrap();
        let inputs: Vec<Option<Vec<u8>>> = vec![
            Some(b"aa b a aaa".to_vec()),
            None,
            Some(b"zzz".to_vec()),
            Some(Vec::new()),
            Some(b"a".to_vec()),
        ];
        let batch = replacer.apply_each(&inputs, false, false);
        assert_eq!(
            batch,
            vec![
                Outcome::Replaced(b"<aa> b <a> aaa".to_vec()),
                Outcome::Skipped,
                Outcome::NoMatch,
                Outcome::NoMatch,
                Outcome::Replaced(b"<a>".to_vec()),
            ]
        );
        for (input, outcome) in inputs.iter().zip(batch.iter()).rev() {
            match input {
                Some(buffer) => assert_eq!(&replacer.apply(buffer, false, false), outcome),
                None => assert_eq!(outcome, &Outcome::Skipped),
            }
        }
    }
}
