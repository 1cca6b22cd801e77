use loxy::ast::{Expr, Statement};
use loxy::base::Base;
use loxy::err::{Stumble, StumbleKind};
use loxy::location::Location;
use loxy::scanner::Scanner;
use loxy::token::TknK;
use loxy::walker::TreeWalker;

fn kinds(scanner: &Scanner) -> Vec<TknK> {
    scanner.tokens.iter().map(|t| t.kind.duplicate()).collect()
}

#[test]
fn every_kind_of_token() {
    let mut scanner = Scanner::default();
    let input = "( ) { } , . - + ; * / ! != = == < <= > >= name 1.5 \"text\" and break class else false for fun if loop nil or print return super this true var while _x";
    assert_eq!(scanner.scan(input), Ok(()));
    let name = |text: &str| TknK::Identifier {
        id: text.to_string(),
    };
    assert_eq!(
        kinds(&scanner),
        vec![
            TknK::ParenL,
            TknK::ParenR,
            TknK::BraceL,
            TknK::BraceR,
            TknK::Comma,
            TknK::Dot,
            TknK::Minus,
            TknK::Plus,
            TknK::Semicolon,
            TknK::Star,
            TknK::Slash,
            TknK::Bang,
            TknK::BangEqual,
            TknK::Equal,
            TknK::EqualEqual,
            TknK::Less,
            TknK::LessEqual,
            TknK::Greater,
            TknK::GreaterEqual,
            name("name"),
            TknK::Number {
                literal: 1.5_f64.to_bits()
            },
            TknK::String {
                literal: "text".to_string()
            },
            TknK::And,
            TknK::Break,
            TknK::Class,
            TknK::Else,
            TknK::False,
            TknK::For,
            TknK::Function,
            TknK::If,
            TknK::Loop,
            TknK::Nil,
            TknK::Or,
            TknK::Print,
            TknK::Return,
            TknK::Super,
            TknK::This,
            TknK::True,
            TknK::Var,
            TknK::While,
            name("_x"),
        ]
    );
}

#[test]
fn tokens_without_blanks_between_them() {
    let mut scanner = Scanner::default();
    assert_eq!(scanner.scan("a<=b!=!c==d=e>=1.5.x(y)"), Ok(()));
    let name = |text: &str| TknK::Identifier {
        id: text.to_string(),
    };
    assert_eq!(
        kinds(&scanner),
        vec![
            name("a"),
            TknK::LessEqual,
            name("b"),
            TknK::BangEqual,
            TknK::Bang,
            name("c"),
            TknK::EqualEqual,
            name("d"),
            TknK::Equal,
            name("e"),
            TknK::GreaterEqual,
            TknK::Number {
                literal: 1.5_f64.to_bits()
            },
            TknK::Dot,
            name("x"),
            TknK::ParenL,
            name("y"),
            TknK::ParenR,
        ]
    );
}

#[test]
fn names_hold_no_digits() {
    let mut scanner = Scanner::default();
    assert_eq!(scanner.scan("ab12 andy _ a_b"), Ok(()));
    let name = |text: &str| TknK::Identifier {
        id: text.to_string(),
    };
    assert_eq!(
        kinds(&scanner),
        vec![
            name("ab"),
            TknK::Number {
                literal: 12.0_f64.to_bits()
            },
            name("andy"),
            name("_"),
            name("a_b"),
        ]
    );
}

#[test]
fn strings_are_taken_as_they_are() {
    let mut scanner = Scanner::default();
    assert_eq!(scanner.scan("\"a \\n // b\" \"\" \"open"), Ok(()));
    assert_eq!(
        kinds(&scanner),
        vec![
            TknK::String {
                literal: "a \\n // b".to_string()
            },
            TknK::String {
                literal: "".to_string()
            },
            TknK::String {
                literal: "open".to_string()
            },
        ]
    );
    assert_eq!(scanner.tokens[1].location, Location::new(0, 12));
    assert_eq!(scanner.tokens[2].location, Location::new(0, 15));
    assert_eq!(scanner.location, Location::new(0, 20));
}

#[test]
fn positions_follow_lines_and_comments() {
    let mut scanner = Scanner::default();
    assert_eq!(scanner.scan("a // one\n  b\n\n// two\n c / d //"), Ok(()));
    let places: Vec<Location> = scanner.tokens.iter().map(|t| t.location).collect();
    assert_eq!(
        places,
        vec![
            Location::new(0, 0),
            Location::new(1, 2),
            Location::new(4, 1),
            Location::new(4, 3),
            Location::new(4, 5),
        ]
    );
    assert_eq!(scanner.location, Location::new(4, 9));
    assert_eq!(scanner.tokens[3].kind, TknK::Slash);
}

#[test]
fn one_token_at_a_time() {
    let mut scanner = Scanner::default();
    let chars: Vec<char> = "  ab ;".chars().collect();
    let mut at = 0;
    assert_eq!(scanner.take_token(&chars, &mut at), Ok(true));
    assert_eq!(at, 4);
    assert_eq!(scanner.take_token(&chars, &mut at), Ok(true));
    assert_eq!(at, 6);
    assert_eq!(scanner.take_token(&chars, &mut at), Ok(false));
    assert_eq!(at, 6);
    assert_eq!(scanner.tokens.len(), 2);
    let chars: Vec<char> = " ?".chars().collect();
    let mut at = 0;
    assert_eq!(
        scanner.take_token(&chars, &mut at),
        Err(Stumble {
            location: Location::new(0, 7),
            kind: StumbleKind::Unrecognised { character: '?' }
        })
    );
    assert_eq!(at, 1);
}

#[test]
fn location_moves() {
    let mut location = Location::new(3, 4);
    location.advance_col(5);
    assert_eq!(location, Location::new(3, 9));
    location.newline();
    assert_eq!(location, Location::new(4, 0));
    assert_eq!(Location::default(), Location::new(0, 0));
    assert_eq!(Location::new(1, 2).line, 1);
    assert_eq!(Location::new(1, 2).col, 2);
}

#[test]
fn text_may_come_in_pieces() {
    let mut walker = TreeWalker::default();
    let mut system = Base::default();
    assert_eq!(walker.scan("var a = 1;\n"), Ok(()));
    assert_eq!(walker.parse(), Ok(1));
    assert_eq!(walker.interpret_index(&mut system, 0), Ok(()));
    assert_eq!(walker.scan("print a + 1; a = 5;\n"), Ok(()));
    assert_eq!(walker.parse(), Ok(2));
    assert_eq!(walker.interpret_index(&mut system, 1), Ok(()));
    assert_eq!(walker.interpret_index(&mut system, 2), Ok(()));
    assert_eq!(walker.scan("print a;"), Ok(()));
    assert_eq!(walker.parse(), Ok(1));
    assert_eq!(walker.interpret_index(&mut system, 3), Ok(()));
    assert_eq!(system.stdio, "2\n5\n");
    assert_eq!(walker.statements().len(), 4);
    assert_eq!(walker.parse(), Ok(0));
    let source: String = walker.source.iter().collect();
    assert_eq!(source, "var a = 1;\nprint a + 1; a = 5;\nprint a;");
    assert_eq!(walker.scanner.location, Location::new(2, 8));
    assert_eq!(walker.line_breaks, vec![0, 11, 31]);
}

#[test]
fn names_are_resolved_as_they_are_read() {
    let mut walker = TreeWalker::default();
    let input = "var a;\n{ var b; { print a; print b; print c; a = 1; } }\nfun f(p) { print p; print a; print f; }";
    assert_eq!(walker.scan(input), Ok(()));
    assert_eq!(walker.parse(), Ok(3));
    let offsets = |statement: &Statement| -> Vec<Option<usize>> {
        let mut found = vec![];
        let mut pending = vec![statement];
        while let Some(next) = pending.pop() {
            match next {
                Statement::Block { statements } => pending.extend(statements.iter().rev()),
                Statement::Function { body, .. } => pending.extend(body.iter().rev()),
                Statement::Print {
                    e: Expr::Identifier { id },
                } => found.push(id.offset),
                Statement::Expression {
                    e: Expr::Assignment { id, .. },
                } => match &**id {
                    Expr::Identifier { id } => found.push(id.offset),
                    _ => {}
                },
                _ => {}
            }
        }
        found
    };
    assert_eq!(
        offsets(&walker.statements()[1]),
        vec![Some(2), Some(1), None, Some(2)]
    );
    assert_eq!(
        offsets(&walker.statements()[2]),
        vec![Some(0), Some(1), Some(1)]
    );
}

#[test]
fn a_for_loop_is_lowered() {
    let mut walker = TreeWalker::default();
    assert_eq!(
        walker.scan("for (var i = 0; i < 2; i = i + 1) { print i; }\nfor (;;) {}"),
        Ok(())
    );
    assert_eq!(walker.parse(), Ok(2));
    match &walker.statements()[0] {
        Statement::Block { statements } => {
            assert_eq!(statements.len(), 2);
            assert!(matches!(statements[0], Statement::Declaration { .. }));
            match &statements[1] {
                Statement::While { condition, body } => {
                    assert_eq!(condition.display(), "(< i[1] 2)");
                    assert_eq!(body.len(), 2);
                    assert!(matches!(body[0], Statement::Print { .. }));
                    match &body[1] {
                        Statement::Expression { e } => {
                            assert_eq!(e.display(), "i[1] = (+ i[1] 1)")
                        }
                        other => panic!("{other:?}"),
                    }
                }
                other => panic!("{other:?}"),
            }
        }
        other => panic!("{other:?}"),
    }
    match &walker.statements()[1] {
        Statement::Block { statements } => {
            assert_eq!(statements.len(), 1);
            match &statements[0] {
                Statement::While { condition, body } => {
                    assert_eq!(condition, &Expr::mk_true());
                    assert!(body.is_empty());
                }
                other => panic!("{other:?}"),
            }
        }
        other => panic!("{other:?}"),
    }
}

#[test]
fn parentheses_group_without_a_node() {
    let mut walker = TreeWalker::default();
    assert_eq!(walker.scan("(1 + 2) * 3"), Ok(()));
    assert_eq!(walker.expression().map(|e| e.display()), Ok("(* (+ 1 2) 3)".to_string()));
}

#[test]
fn delimited_expressions() {
    let mut walker = TreeWalker::default();
    assert_eq!(walker.scan("; 1 + 2 ; )"), Ok(()));
    assert_eq!(walker.expression_delimited(&TknK::Semicolon), Ok(Expr::Empty));
    assert_eq!(walker.token_kind(), Some(&TknK::Semicolon));
    assert!(walker.syncronise());
    assert_eq!(
        walker.expression_delimited(&TknK::Semicolon).map(|e| e.display()),
        Ok("(+ 1 2)".to_string())
    );
    assert_eq!(walker.token_kind_ahead(1), Some(&TknK::ParenR));
    assert_eq!(walker.token_ahead(2), None);
    assert!(walker.syncronise());
    assert_eq!(
        walker.expression_delimited(&TknK::Semicolon).map_err(|e| e.kind),
        Err(StumbleKind::Unexpected {
            found: TknK::ParenR
        })
    );
    assert!(!walker.syncronise());
    assert_eq!(walker.token(), None);
}

#[test]
fn identifiers_of_expressions() {
    let walker = TreeWalker::default();
    let a = || Expr::mk_identifier("a".to_string(), Some(1));
    assert_eq!(walker.to_identifier(a()).map(|i| i.display()), Ok("a[1]".to_string()));
    assert_eq!(
        walker.to_identifier(Expr::mk_nil()).map_err(|e| e.kind),
        Err(StumbleKind::InvalidAsignee)
    );
    assert_eq!(walker.to_identifiers(vec![a(), a()]).map(|v| v.len()), Ok(2));
    assert_eq!(
        walker.to_identifiers(vec![a(), Expr::mk_nil()]).map_err(|e| e.kind),
        Err(StumbleKind::InvalidAsignee)
    );
}

#[test]
fn diagnostics_are_shown_with_their_line() {
    let mut walker = TreeWalker::default();
    assert_eq!(walker.scan("var a = 1;\nprint a +;\nprint a;"), Ok(()));
    let error = walker.parse().expect_err("an operand is missing");
    let mut system = Base::default();
    walker.handle_stumble(&error, &mut system);
    assert_eq!(
        system.stdio,
        "Error on line 1 at column 9: Unexpected { found: Semicolon }\n> print a +;\n"
    );
    let mut system = Base::default();
    walker.handle_stumble(
        &Stumble {
            location: Location::new(2, 0),
            kind: StumbleKind::Todo,
        },
        &mut system,
    );
    assert_eq!(system.stdio, "Error on line 2 at column 0: Todo\n> print a;\n");
    let mut system = Base::default();
    walker.handle_stumble(&walker.stumble_here(StumbleKind::TokensExhausted), &mut system);
    assert_eq!(
        system.stdio,
        "Error on line 2 at column 8: TokensExhausted\n> print a;\n"
    );
    let mut system = Base::default();
    walker.handle_stumble(
        &Stumble {
            location: Location::new(12, 120),
            kind: StumbleKind::Todo,
        },
        &mut system,
    );
    assert_eq!(system.stdio, "Error on line 12 at column 120: Todo\n> \n");
}

#[test]
fn the_sink_can_be_replaced() {
    let mut system = Base::default();
    system.update_stdio("so far: ".to_string());
    let mut walker = TreeWalker::default();
    assert_eq!(walker.scan("print 1;"), Ok(()));
    assert_eq!(walker.parse(), Ok(1));
    assert_eq!(walker.interpret_all(&mut system), Ok(()));
    assert_eq!(system.stdio, "so far: 1\n");
    assert_eq!(system.steps, u64::MAX);
}

#[test]
fn tokens_are_written_out() {
    let mut scanner = Scanner::default();
    assert_eq!(scanner.scan("1.5 \"text\" name while"), Ok(()));
    let written: Vec<String> = scanner.tokens.iter().map(|t| t.display()).collect();
    assert_eq!(
        written,
        vec![
            "Number: 1.5",
            "String: text",
            "Non-literal: Identifier { id: \"name\" }",
            "Non-literal: While",
        ]
    );
}

#[test]
fn a_comment_is_a_step_without_a_token() {
    let mut scanner = Scanner::default();
    let chars: Vec<char> = "a // c\nb".chars().collect();
    let mut at = 0;
    assert_eq!(scanner.take_token(&chars, &mut at), Ok(true));
    assert_eq!((at, scanner.tokens.len()), (1, 1));
    assert_eq!(scanner.take_token(&chars, &mut at), Ok(true));
    assert_eq!((at, scanner.tokens.len()), (7, 1));
    assert_eq!(scanner.location, Location::new(1, 0));
    assert_eq!(scanner.take_token(&chars, &mut at), Ok(true));
    assert_eq!((at, scanner.tokens.len()), (8, 2));
    assert_eq!(scanner.tokens[1].location, Location::new(1, 0));
    assert_eq!(scanner.take_token(&chars, &mut at), Ok(false));
    assert_eq!((at, scanner.tokens.len()), (8, 2));
}

#[test]
fn a_comment_may_end_the_text() {
    let mut scanner = Scanner::default();
    let chars: Vec<char> = " // x".chars().collect();
    let mut at = 0;
    assert_eq!(scanner.take_token(&chars, &mut at), Ok(true));
    assert_eq!((at, scanner.tokens.len()), (5, 0));
    assert_eq!(scanner.location, Location::new(0, 5));
    assert_eq!(scanner.take_token(&chars, &mut at), Ok(false));
    assert_eq!((at, scanner.tokens.len()), (5, 0));
}

#[test]
fn only_blanks_end_the_scan() {
    let mut scanner = Scanner::default();
    let chars: Vec<char> = " \t\n ".chars().collect();
    let mut at = 0;
    assert_eq!(scanner.take_token(&chars, &mut at), Ok(false));
    assert_eq!((at, scanner.tokens.len()), (4, 0));
    assert_eq!(scanner.location, Location::new(1, 1));
}

#[test]
fn a_lone_slash_is_a_token() {
    let mut scanner = Scanner::default();
    let chars: Vec<char> = "/ /".chars().collect();
    let mut at = 0;
    assert_eq!(scanner.take_token(&chars, &mut at), Ok(true));
    assert_eq!(scanner.take_token(&chars, &mut at), Ok(true));
    assert_eq!(scanner.take_token(&chars, &mut at), Ok(false));
    assert_eq!(scanner.tokens.len(), 2);
    assert_eq!(scanner.tokens[0].kind, TknK::Slash);
    assert_eq!(scanner.tokens[1].kind, TknK::Slash);
}

#[test]
fn every_kind_of_white_space_is_passed_over() {
    let blanks = [
        '\t', '\n', '\u{b}', '\u{c}', '\r', ' ', '\u{85}', '\u{a0}', '\u{1680}', '\u{2000}',
        '\u{2001}', '\u{2002}', '\u{2003}', '\u{2004}', '\u{2005}', '\u{2006}', '\u{2007}',
        '\u{2008}', '\u{2009}', '\u{200a}', '\u{2028}', '\u{2029}', '\u{202f}', '\u{205f}',
        '\u{3000}',
    ];
    for blank in blanks {
        assert!(blank.is_whitespace());
        let mut scanner = Scanner::default();
        let text: String = ['a', blank, 'b'].iter().collect();
        assert_eq!(scanner.scan(&text), Ok(()));
        assert_eq!(scanner.tokens.len(), 2);
        let second = if blank == '\n' { Location::new(1, 0) } else { Location::new(0, 2) };
        assert_eq!(scanner.tokens[1].location, second);
    }
}

#[test]
fn what_is_no_white_space_is_not_passed_over() {
    for other in ['\u{8}', '\u{e}', '\u{1f}', '\u{84}', '\u{86}', '\u{200b}', '\u{2060}', '\u{feff}'] {
        assert!(!other.is_whitespace());
        let mut scanner = Scanner::default();
        let text: String = ['a', other, 'b'].iter().collect();
        assert_eq!(
            scanner.scan(&text),
            Err(Stumble {
                location: Location::new(0, 1),
                kind: StumbleKind::Unrecognised { character: other }
            })
        );
        assert_eq!(scanner.tokens.len(), 1);
    }
}

#[test]
fn digits_always_make_a_number() {
    for (text, value) in [
        ("0", 0.0),
        ("007.50", 7.5),
        ("123456789012345678901234567890", 123456789012345678901234567890.0),
        ("0.000000000000000000000000000001", 1e-30),
        ("9007199254740993", 9007199254740992.0),
    ] {
        let mut scanner = Scanner::default();
        assert_eq!(scanner.scan(text), Ok(()));
        assert_eq!(scanner.tokens.len(), 1);
        assert_eq!(scanner.tokens[0].kind, TknK::Number { literal: f64::to_bits(value) });
    }
    let mut scanner = Scanner::default();
    let long = "9".repeat(400);
    assert_eq!(scanner.scan(&long), Ok(()));
    assert_eq!(scanner.tokens[0].kind, TknK::Number { literal: f64::INFINITY.to_bits() });
}

#[test]
fn names_are_made_of_alphabetic_characters() {
    let mut scanner = Scanner::default();
    assert_eq!(scanner.scan("café _x 变量 naïve_Ω x1"), Ok(()));
    assert_eq!(
        kinds(&scanner),
        vec![
            TknK::Identifier { id: "café".to_string() },
            TknK::Identifier { id: "_x".to_string() },
            TknK::Identifier { id: "变量".to_string() },
            TknK::Identifier { id: "naïve_Ω".to_string() },
            TknK::Identifier { id: "x".to_string() },
            TknK::Number { literal: f64::to_bits(1.0) },
        ]
    );
    assert_eq!(scanner.tokens[2].location, Location::new(0, 8));
    assert_eq!(scanner.location, Location::new(0, 21));

    let mut scanner = Scanner::default();
    assert_eq!(
        scanner.scan("a €"),
        Err(Stumble {
            location: Location::new(0, 2),
            kind: StumbleKind::Unrecognised { character: '€' }
        })
    );
}

#[test]
fn positions_stay_those_of_the_source_behind_a_refused_token() {
    let mut walker = TreeWalker::default();
    let first = walker.scan("a ? b\n").expect_err("a question mark is no token");
    assert_eq!(
        first,
        Stumble {
            location: Location::new(0, 2),
            kind: StumbleKind::Unrecognised { character: '?' }
        }
    );
    assert_eq!(walker.parser.tokens.len(), 1);
    assert_eq!(walker.scanner.location, Location::new(1, 0));
    let source: String = walker.source.iter().collect();
    assert_eq!(source, "a ? b\n");
    let mut system = Base::default();
    walker.handle_stumble(&first, &mut system);
    assert_eq!(
        system.stdio,
        "Error on line 0 at column 2: Unrecognised { character: '?' }\n> a ? b\n"
    );

    let second = walker.scan("c\n  d $").expect_err("a dollar sign is no token");
    assert_eq!(
        second,
        Stumble {
            location: Location::new(2, 4),
            kind: StumbleKind::Unrecognised { character: '$' }
        }
    );
    assert_eq!(walker.parser.tokens.len(), 3);
    assert_eq!(walker.parser.tokens[1].location, Location::new(1, 0));
    assert_eq!(walker.parser.tokens[2].location, Location::new(2, 2));
    assert_eq!(walker.scanner.location, Location::new(2, 5));
    let mut system = Base::default();
    walker.handle_stumble(&second, &mut system);
    assert_eq!(
        system.stdio,
        "Error on line 2 at column 4: Unrecognised { character: '$' }\n>   d $\n"
    );
    assert_eq!(walker.scan(" e"), Ok(()));
    assert_eq!(walker.parser.tokens[3].location, Location::new(2, 6));
}
