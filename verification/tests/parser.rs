use loxy::ast::{Expr, ExprB, Statement};
use loxy::base::Base;
use loxy::err::StumbleKind;
use loxy::environment::Env;
use loxy::parser::Parser;
use loxy::scanner::{get_keyword_or_identifier, Scanner};
use loxy::token::TknK;
use loxy::walker::TreeWalker;

fn parser_for(input: &str) -> Parser {
    let mut scanner = Scanner::default();
    assert_eq!(scanner.scan(input), Ok(()));

    let mut parser = Parser::default();
    parser.take_scaner(scanner);
    parser
}

#[test]
fn tests_simple() {
    let input = "! true == false";

    let mut parser = TreeWalker::default();
    assert_eq!(parser.scan(input), Ok(()));

    let expr = parser.expression();

    assert!(expr.is_ok());

    let expr = expr.unwrap();

    assert_eq!(expr.display(), "(== (! true) false)");
}

#[test]
fn tests_arithmetic() {
    let input = "4 / 3 * - 2";

    let mut parser = TreeWalker::default();
    assert_eq!(parser.scan(input), Ok(()));

    let expr = parser.expression();

    assert!(expr.is_ok());

    let expr = expr.unwrap();

    assert_eq!(expr.display(), "(/ 4 (* 3 (- 2)))");
}

#[test]
fn tests_sync() {
    let input = "4 / ; + 2 2; 2 + 2";

    let mut parser = TreeWalker::default();
    assert_eq!(parser.scan(input), Ok(()));

    let expr = parser.expression();

    match expr {
        Ok(_) => panic!("Expected parse error"),

        Err(_) => loop {
            match parser.expression() {
                Ok(expr) => {
                    assert_eq!(expr.display(), "(+ 2 2)");
                    break;
                }
                Err(_) => {
                    if parser.token().is_none() {
                        panic!("Failed to sync before EOF");
                    }

                    parser.syncronise();
                }
            }
        },
    }
}

#[test]
fn parser_simple() {
    let input = "! true == false";
    let mut parser = parser_for(input);
    let (env, at) = Env::fresh_std_env();
    let expr = parser.expression(&env, at);

    match expr {
        Ok(expr) => assert_eq!(expr.display(), "(== (! true) false)"),

        Err(_) => panic!("Failed to parse {input}"),
    }
}

#[test]
fn parser_arithmetic() {
    let input = "4 / 3 * - 2";
    let mut parser = parser_for(input);
    let (env, at) = Env::fresh_std_env();
    let expr = parser.expression(&env, at);

    match expr {
        Ok(expr) => assert_eq!(expr.display(), "(/ 4 (* 3 (- 2)))"),

        Err(_) => panic!("Failed to parse {input}"),
    }
}

#[test]
fn parser_sync() {
    let input = "4 / ; + 2 2; 2 + 2";
    let mut parser = parser_for(input);
    let (env, at) = Env::fresh_std_env();
    let expr = parser.expression(&env, at);

    match expr {
        Ok(_) => panic!("Expected parse error"),

        Err(_) => loop {
            match parser.expression(&env, at) {
                Ok(expr) => {
                    assert_eq!(expr.display(), "(+ 2 2)");
                    break;
                }
                Err(_) => {
                    if parser.token().is_none() {
                        panic!("Failed to sync before EOF");
                    }

                    parser.syncronise();
                }
            }
        },
    }
}

#[test]
fn mod_simple() {
    let input = "! true == false";
    let mut parser = parser_for(input);
    let (env, at) = Env::fresh_std_env();
    let expr = parser.expression(&env, at);

    match expr {
        Ok(expr) => assert_eq!(expr.display(), "(== (! true) false)"),

        Err(_) => panic!("Failed to parse {input}"),
    }
}

#[test]
fn mod_arithmetic() {
    let input = "4 / 3 * - 2";
    let mut parser = parser_for(input);
    let (env, at) = Env::fresh_std_env();
    let expr = parser.expression(&env, at);

    match expr {
        Ok(expr) => assert_eq!(expr.display(), "(/ 4 (* 3 (- 2)))"),

        Err(_) => panic!("Failed to parse {input}"),
    }
}

#[test]
fn mod_sync() {
    let input = "4 / ; + 2 2; 2 + 2";
    let mut parser = parser_for(input);
    let (env, at) = Env::fresh_std_env();
    let expr = parser.expression(&env, at);

    match expr {
        Ok(_) => panic!("Expected parse error"),

        Err(_) => loop {
            match parser.expression(&env, at) {
                Ok(expr) => {
                    assert_eq!(expr.display(), "(+ 2 2)");
                    break;
                }
                Err(_) => {
                    if parser.token().is_none() {
                        panic!("Failed to sync before EOF");
                    }

                    parser.syncronise();
                }
            }
        },
    }
}

#[test]
fn interpret_print() {
    let mut scannar = Scanner::default();
    let input = "print 5 + 5";

    assert_eq!(scannar.scan(input), Ok(()));

    let mut parser = Parser::default();
    parser.take_scaner(scannar);
    let (mut env, at) = Env::fresh_std_env();

    let _ = parser.parse(&mut env, at);

    let (mut scopes, frame) = Env::fresh_std_env();
    let mut system = Base::default();
    for statement in parser.statements() {
        let _ = TreeWalker::interpret(statement, &mut scopes, frame, &mut system);
    }
}

#[test]
fn a_primary_name_carries_its_offset() {
    let (mut env, inner) = Env::fresh_std_env();
    env.insert(0, &"g".to_string(), ExprB::mk_nil());
    env.insert(inner, &"a".to_string(), ExprB::mk_nil());
    env.insert(inner, &"b".to_string(), ExprB::mk_nil());
    let deep = env.narrow(inner);
    let deeper = env.narrow(deep);
    env.insert(deeper, &"a".to_string(), ExprB::mk_nil());
    let frames = env.size();

    let mut parser = parser_for("a b g z a");
    assert_eq!(parser.primary(&env, deeper), Ok(Expr::mk_identifier("a".to_string(), Some(0))));
    assert_eq!(parser.token_index, 1);
    assert_eq!(parser.primary(&env, deeper), Ok(Expr::mk_identifier("b".to_string(), Some(2))));
    assert_eq!(parser.token_index, 2);
    assert_eq!(parser.primary(&env, deeper), Ok(Expr::mk_identifier("g".to_string(), Some(3))));
    assert_eq!(parser.token_index, 3);
    assert_eq!(parser.primary(&env, deeper), Ok(Expr::mk_identifier("z".to_string(), None)));
    assert_eq!(parser.token_index, 4);
    assert_eq!(parser.primary(&env, deep), Ok(Expr::mk_identifier("a".to_string(), Some(1))));
    assert_eq!(parser.token_index, 5);
    assert_eq!(parser.primary(&env, deep), Err(StumbleKind::MissingToken));
    assert_eq!(parser.token_index, 5);
    assert_eq!(env.size(), frames);
    assert_eq!(env.offset(deeper, &"b".to_string()), Some(2));
}

#[test]
fn a_primary_in_parentheses_leaves_no_trace() {
    let (env, inner) = Env::fresh_std_env();
    let mut parser = parser_for("(1) (2");
    assert_eq!(parser.primary(&env, inner), Ok(Expr::mk_numeric(f64::to_bits(1.0))));
    assert_eq!(parser.token_index, 3);
    assert_eq!(parser.primary(&env, inner), Err(StumbleKind::MismatchedParentheses));
}

#[test]
fn the_driver_reads_a_name_with_its_offset() {
    let mut walker = TreeWalker::default();
    assert_eq!(walker.scan("var a = 1;"), Ok(()));
    assert_eq!(walker.parse(), Ok(1));
    assert_eq!(walker.scan(" a z"), Ok(()));
    let frames = walker.parse_env.size();
    let at = walker.parser.token_index;
    assert_eq!(walker.primary(), Ok(Expr::mk_identifier("a".to_string(), Some(0))));
    assert_eq!(walker.parser.token_index, at + 1);
    assert_eq!(walker.primary(), Ok(Expr::mk_identifier("z".to_string(), None)));
    assert_eq!(walker.parser.token_index, at + 2);
    assert_eq!(walker.primary().map_err(|e| e.kind), Err(StumbleKind::MissingToken));
    assert_eq!(walker.parser.token_index, at + 2);
    assert_eq!(walker.parse_env.size(), frames);
    assert_eq!(walker.parse_env.offset(walker.parse_at, &"a".to_string()), Some(0));
}

#[test]
fn the_parts_of_the_grammar_can_be_read_one_by_one() {
    let (mut env, at) = Env::fresh_std_env();
    let mut parser = parser_for("var a = 1 < 2; print a; f(a, 3) 4 >= 5 { var b; }");
    let frames = env.size();

    match parser.declaration(&mut env, at) {
        Ok(Statement::Declaration { id, e }) => {
            assert_eq!(id.name, "a");
            assert_eq!(e.display(), "(< 1 2)");
        }
        other => panic!("No declaration: {other:?}"),
    }
    assert_eq!(env.offset(at, &"a".to_string()), Some(0));

    match parser.statement(&mut env, at) {
        Ok(Statement::Print { e }) => assert_eq!(e.display(), "a[0]"),
        other => panic!("No print: {other:?}"),
    }

    let third = parser.call(&env, at).unwrap();
    assert_eq!(third.display(), "f[-](a[0], 3)");

    let fourth = parser.comparison(&env, at).unwrap();
    assert_eq!(fourth.display(), "(>= 4 5)");

    match parser.statement(&mut env, at) {
        Ok(Statement::Block { statements }) => assert_eq!(statements.len(), 1),
        other => panic!("No block: {other:?}"),
    }
    assert_eq!(env.size(), frames);
    assert_eq!(env.offset(at, &"b".to_string()), None);
    assert_eq!(parser.statement(&mut env, at), Err(StumbleKind::TokensExhausted));
}

#[test]
fn words_are_reserved_or_names() {
    use_word("while", TknK::While);
    use_word("fun", TknK::Function);
    use_word("Fun", TknK::Identifier { id: "Fun".to_string() });
    use_word("whiles", TknK::Identifier { id: "whiles".to_string() });
    use_word("", TknK::Identifier { id: String::new() });
}

fn use_word(word: &str, kind: TknK) {
    assert_eq!(get_keyword_or_identifier(word.to_string()), kind);
}
