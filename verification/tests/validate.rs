use sd::validate::{first_ambiguous_capture, validate_replace, AmbiguousCapture};

#[test]
fn digit_then_letter_is_refused() {
    assert!(validate_replace("$1a").is_err());
    assert!(validate_replace("$1_").is_err());
    assert!(validate_replace("$0Z").is_err());
    assert!(validate_replace("$12a").is_err());
    assert!(validate_replace("left $1 right $2b").is_err());
}

#[test]
fn digit_then_separator_is_accepted() {
    assert!(validate_replace("$1!").is_ok());
    assert!(validate_replace("${1}a").is_ok());
    assert!(validate_replace("$1").is_ok());
    assert!(validate_replace("$1 a").is_ok());
    assert!(validate_replace("$1-$2").is_ok());
    assert!(validate_replace("$1$2").is_ok());
    assert!(validate_replace("$12").is_ok());
    assert!(validate_replace("$1é").is_ok());
}

#[test]
fn other_dollar_uses_are_accepted() {
    assert!(validate_replace("").is_ok());
    assert!(validate_replace("plain").is_ok());
    assert!(validate_replace("$").is_ok());
    assert!(validate_replace("$$").is_ok());
    assert!(validate_replace("$name").is_ok());
    assert!(validate_replace("$a1").is_ok());
    assert!(validate_replace("$_1").is_ok());
    assert!(validate_replace("${name}").is_ok());
    assert!(validate_replace("${1a}").is_ok());
    assert!(validate_replace("a$").is_ok());
    assert!(validate_replace("1a").is_ok());
    assert!(validate_replace("$ 1a").is_ok());
    assert!(validate_replace("$a-zA-Z_").is_ok());
}

#[test]
fn error_describes_first_ambiguous_capture() {
    let e = validate_replace("ab $1 $23abc_9! $4d").unwrap_err();
    assert_eq!(e.template, "ab $1 $23abc_9! $4d");
    assert_eq!(e.ident_start, 7);
    assert_eq!(e.ident_end, 14);
    assert_eq!(e.num_leading_digits, 2);
    assert_eq!(&e.template[e.ident_start..e.ident_end], "23abc_9");
}

#[test]
fn error_offsets_count_bytes() {
    let e = validate_replace("é$1a").unwrap_err();
    assert_eq!(e.ident_start, 3);
    assert_eq!(e.ident_end, 5);
    assert_eq!(e.num_leading_digits, 1);
}

#[test]
fn scan_reports_dollar_digits_and_end() {
    assert_eq!(
        first_ambiguous_capture(b"$1a"),
        Some(AmbiguousCapture { dollar: 0, digits: 1, end: 3 })
    );
    assert_eq!(
        first_ambiguous_capture(b"x$007bond$1a"),
        Some(AmbiguousCapture { dollar: 1, digits: 3, end: 9 })
    );
    assert_eq!(first_ambiguous_capture(b"$1!"), None);
    assert_eq!(first_ambiguous_capture(b""), None);
    assert_eq!(first_ambiguous_capture(&[0x24, 0x31, 0xc3, 0xa9]), None);
}

#[test]
fn validate_doesnt_panic() {
    let pieces = ["", "$", "$$", "$1", "$1a", "${", "}", "\\", "é", "\u{10ffff}", "0", "_", " ", "$9$", "a$"];
    for a in pieces {
        for b in pieces {
            for c in pieces {
                let s = format!("{a}{b}{c}");
                let _ = validate_replace(&s);
                let _ = first_ambiguous_capture(s.as_bytes());
            }
        }
    }
    let long = "$".repeat(10_000) + &"1".repeat(10_000) + "a";
    assert!(validate_replace(&long).is_err());
    let _ = first_ambiguous_capture(&[0xff, 0x24, 0x80, 0x24, 0x39, 0xff]);
}

#[test]
fn validate_ok() {
    let fillers = ["", "abc", " ", "é!", "{}"];
    let tails = ["", "$1!", "$0 ", "$9-", "$a-zA-Z_", "$5é"];
    for f in fillers {
        for t in tails {
            for g in fillers {
                for u in tails {
                    let s = format!("{f}{t}{g}{u}");
                    validate_replace(&s).unwrap();
                }
            }
        }
    }
}

#[test]
fn validate_err() {
    let heads = ["", "abc", "é ", "{1}"];
    let digits = ["0", "5", "9"];
    let idents = ["a", "z", "A", "Z", "_"];
    let tails = ["", "rest", "$", " é"];
    for h in heads {
        for d in digits {
            for i in idents {
                for t in tails {
                    let s = format!("{h}${d}{i}{t}");
                    validate_replace(&s).unwrap_err();
                }
            }
        }
    }
}
