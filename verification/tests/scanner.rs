use loxy::location::Location;
use loxy::scanner::Scanner;
use loxy::token::{Tkn, TknK};
use loxy::walker::TreeWalker;

fn numeric_tokens() -> Vec<Tkn> {
    vec![
        Tkn {
            kind: TknK::Number {
                literal: 1.0_f64.to_bits(),
            },
            location: Location::default(),
        },
        Tkn {
            kind: TknK::Number {
                literal: 0.23_f64.to_bits(),
            },
            location: Location::new(0, 2),
        },
        Tkn {
            kind: TknK::Number {
                literal: 1.23_f64.to_bits(),
            },
            location: Location::new(1, 2),
        },
    ]
}

fn keyword_tokens() -> Vec<Tkn> {
    vec![
        Tkn {
            kind: TknK::Identifier {
                id: "not".to_string(),
            },
            location: Location::default(),
        },
        Tkn {
            kind: TknK::ParenL,
            location: Location::new(0, 4),
        },
        Tkn {
            kind: TknK::True,
            location: Location::new(0, 5),
        },
        Tkn {
            kind: TknK::And,
            location: Location::new(0, 10),
        },
        Tkn {
            kind: TknK::Identifier {
                id: "perhaps".to_string(),
            },
            location: Location::new(0, 14),
        },
        Tkn {
            kind: TknK::False,
            location: Location::new(0, 22),
        },
        Tkn {
            kind: TknK::ParenR,
            location: Location::new(0, 27),
        },
    ]
}

#[test]
fn scanner_scanner_basic_numeric() {
    let mut scanner = Scanner::default();
    assert_eq!(scanner.scan("1 0.23\n  1.23"), Ok(()));

    assert_eq!(scanner.tokens, numeric_tokens());
}

#[test]
fn scanner_scanner_basic_keyword() {
    let mut scanner = Scanner::default();
    assert_eq!(scanner.scan("not"), Ok(()));
    assert_eq!(scanner.scan(" "), Ok(()));
    assert_eq!(scanner.scan("(true and perhaps false)"), Ok(()));

    assert_eq!(scanner.tokens, keyword_tokens());
}

#[test]
fn mod_scanner_basic_numeric() {
    let mut scanner = Scanner::default();
    assert_eq!(scanner.scan("1 0.23\n  1.23"), Ok(()));

    assert_eq!(scanner.tokens, numeric_tokens());
}

#[test]
fn mod_scanner_basic_keyword() {
    let mut scanner = Scanner::default();
    assert_eq!(scanner.scan("not"), Ok(()));
    assert_eq!(scanner.scan(" "), Ok(()));
    assert_eq!(scanner.scan("(true and perhaps false)"), Ok(()));

    assert_eq!(scanner.tokens, keyword_tokens());
}

#[test]
fn scanner_tests_scanner_basic_numeric() {
    let mut walker = TreeWalker::default();
    assert_eq!(walker.scan("1 0.23\n  1.23"), Ok(()));

    assert_eq!(walker.parser.tokens, numeric_tokens());
}

#[test]
fn scanner_tests_scanner_basic_keyword() {
    let mut walker = TreeWalker::default();
    assert_eq!(walker.scan("not"), Ok(()));
    assert_eq!(walker.scan(" "), Ok(()));
    assert_eq!(walker.scan("(true and perhaps false)"), Ok(()));

    assert_eq!(walker.parser.tokens, keyword_tokens());
}
