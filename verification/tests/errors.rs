use loxy::ast::{Control, Expr, ExprB, Statement};
use loxy::base::Base;
use loxy::environment::Env;
use loxy::err::{EnvErr, EvalErr, Stumble, StumbleKind};
use loxy::location::Location;
use loxy::token::{TknErr, TknK};
use loxy::walker::TreeWalker;

fn scan_error(input: &str) -> Stumble {
    let mut walker = TreeWalker::default();
    walker.scan(input).expect_err("the scanner should refuse this")
}

fn parse_error(input: &str) -> Stumble {
    let mut walker = TreeWalker::default();
    assert_eq!(walker.scan(input), Ok(()));
    walker.parse().expect_err("the parser should refuse this")
}

fn run_error(input: &str) -> (Stumble, String) {
    let mut walker = TreeWalker::default();
    assert_eq!(walker.scan(input), Ok(()));
    assert!(walker.parse().is_ok());
    let mut system = Base::default();
    let error = walker
        .interpret_all(&mut system)
        .expect_err("evaluation should fail");
    (error, system.stdio)
}

#[test]
fn unrecognised_character() {
    let error = scan_error("var a = 1;\n  @");
    assert_eq!(error.kind, StumbleKind::Unrecognised { character: '@' });
    assert_eq!(error.location, Location::new(1, 2));
}

#[test]
fn trailing_dot() {
    let error = scan_error("12.");
    assert_eq!(error.kind, StumbleKind::TrailingDot);
    assert_eq!(error.location, Location::new(0, 0));
    assert_eq!(scan_error("1 + 12.x").kind, StumbleKind::TrailingDot);
}

#[test]
fn multiline_string() {
    let error = scan_error("print \"one\ntwo\";");
    assert_eq!(error.kind, StumbleKind::MultilineString);
    assert_eq!(error.location, Location::new(0, 6));
}

#[test]
fn tokens_before_a_refusal_are_kept() {
    let mut walker = TreeWalker::default();
    let error = walker.scan("1 + 2 § 3").expect_err("a section sign is no token");
    assert_eq!(error.location, Location::new(0, 6));
    assert_eq!(walker.parser.tokens.len(), 3);
    assert_eq!(walker.scanner.location, Location::new(0, 9));
}

#[test]
fn open_statement() {
    let error = parse_error("print 1\nprint 2;");
    assert_eq!(error.kind, StumbleKind::OpenStatement);
    assert_eq!(error.location, Location::new(0, 6));
    assert_eq!(parse_error("var a = 1").kind, StumbleKind::OpenStatement);
    assert_eq!(parse_error("break").kind, StumbleKind::OpenStatement);
    assert_eq!(parse_error("return 1").kind, StumbleKind::OpenStatement);
    assert_eq!(parse_error("1 = 2;").kind, StumbleKind::OpenStatement);
}

#[test]
fn unexpected_token() {
    let error = parse_error("print 4 / ;");
    assert_eq!(
        error.kind,
        StumbleKind::Unexpected {
            found: TknK::Semicolon
        }
    );
    assert_eq!(error.location, Location::new(0, 10));
    assert_eq!(
        parse_error("fun 5() {}").kind,
        StumbleKind::Unexpected {
            found: TknK::Number {
                literal: 5.0_f64.to_bits()
            }
        }
    );
    assert_eq!(
        parse_error("fun f(a, 1) {}").kind,
        StumbleKind::Unexpected {
            found: TknK::Number {
                literal: 1.0_f64.to_bits()
            }
        }
    );
}

#[test]
fn missing_token() {
    assert_eq!(parse_error("print 1 +").kind, StumbleKind::MissingToken);
    assert_eq!(parse_error("if true print 1;").kind, StumbleKind::MissingToken);
    assert_eq!(parse_error("while (true {}").kind, StumbleKind::MissingToken);
    assert_eq!(parse_error("{ print 1;").kind, StumbleKind::MissingToken);
    assert_eq!(parse_error("var").kind, StumbleKind::MissingToken);
    assert_eq!(parse_error("for (var a = 1; a < 2 a = 3) {}").kind, StumbleKind::MissingToken);
}

#[test]
fn mismatched_parentheses() {
    assert_eq!(
        parse_error("print (1 + 2;").kind,
        StumbleKind::MismatchedParentheses
    );
    assert_eq!(
        parse_error("f(1, 2;").kind,
        StumbleKind::MismatchedParentheses
    );
    assert_eq!(
        parse_error("fun f(a b) {}").kind,
        StumbleKind::MismatchedParentheses
    );
}

#[test]
fn invalid_assignee() {
    let error = parse_error("var 5 = 3;");
    assert_eq!(error.kind, StumbleKind::InvalidAsignee);
    assert_eq!(error.location, Location::new(0, 4));
}

#[test]
fn for_initialiser() {
    assert_eq!(
        parse_error("for (print 1; true; ) {}").kind,
        StumbleKind::ForInitialiser
    );
    assert_eq!(
        parse_error("for (a = 1; true; ) {}").kind,
        StumbleKind::ForInitialiser
    );
}

#[test]
fn expected_block() {
    assert_eq!(parse_error("loop print 1;").kind, StumbleKind::ExpectedBlock);
    assert_eq!(
        parse_error("while (true) print 1;").kind,
        StumbleKind::ExpectedBlock
    );
    assert_eq!(parse_error("fun f() print 1;").kind, StumbleKind::ExpectedBlock);
}

fn call_with(arguments: usize) -> String {
    let mut input = String::from("f(");
    for i in 0..arguments {
        if i > 0 {
            input.push_str(", ");
        }
        input.push('1');
    }
    input.push_str(");");
    input
}

#[test]
fn argument_limit() {
    let mut walker = TreeWalker::default();
    assert_eq!(walker.scan(&call_with(255)), Ok(()));
    assert_eq!(walker.parse(), Ok(1));
    match &walker.statements()[0] {
        Statement::Expression {
            e: Expr::Call { args, .. },
        } => assert_eq!(args.len(), 255),
        other => panic!("{other:?}"),
    }
    assert_eq!(parse_error(&call_with(256)).kind, StumbleKind::ArgLimit);
}

#[test]
fn parameter_limit() {
    let mut input = String::from("fun f(");
    for i in 0..256 {
        if i > 0 {
            input.push_str(", ");
        }
        input.push('a');
    }
    input.push_str(") {}");
    assert_eq!(parse_error(&input).kind, StumbleKind::ArgLimit);
}

#[test]
fn tokens_exhausted() {
    let mut walker = TreeWalker::default();
    assert_eq!(walker.scan("if (true) print 1; else"), Ok(()));
    let error = walker.parse().expect_err("a statement is missing");
    assert_eq!(error.kind, StumbleKind::TokensExhausted);
    assert_eq!(error.location, walker.scanner.location);
}

#[test]
fn what_was_read_before_a_refusal_is_kept() {
    let mut walker = TreeWalker::default();
    assert_eq!(walker.scan("print 1; print 2; print ; print 4;"), Ok(()));
    assert!(walker.parse().is_err());
    assert_eq!(walker.statements().len(), 2);
    assert!(walker.syncronise());
    assert_eq!(walker.parse(), Ok(1));
    assert_eq!(walker.statements().len(), 3);
    let mut system = Base::default();
    assert_eq!(walker.interpret_all(&mut system), Ok(()));
    assert_eq!(system.stdio, "1\n2\n4\n");
}

#[test]
fn conflicting_subexpression() {
    let (error, written) = run_error("print 1; print 1 + \"one\"; print 2;");
    assert_eq!(error.kind, StumbleKind::ConflictingSubexpression);
    assert_eq!(error.location, Location::default());
    assert_eq!(written, "1\n");
    assert_eq!(
        run_error("print nil * 2;").0.kind,
        StumbleKind::ConflictingSubexpression
    );
    assert_eq!(
        run_error("print -true;").0.kind,
        StumbleKind::ConflictingSubexpression
    );
    assert_eq!(
        run_error("print 1 < \"x\";").0.kind,
        StumbleKind::ConflictingSubexpression
    );
}

#[test]
fn the_left_operand_is_checked_before_the_right_is_evaluated() {
    let input = "fun noisy() { print \"evaluated\"; return 1; }\nprint nil - noisy();";
    let (error, written) = run_error(input);
    assert_eq!(error.kind, StumbleKind::ConflictingSubexpression);
    assert_eq!(written, "");
    let input = "fun noisy() { print \"evaluated\"; return 1; }\nprint nil + noisy();";
    let (error, written) = run_error(input);
    assert_eq!(error.kind, StumbleKind::ConflictingSubexpression);
    assert_eq!(written, "evaluated\n");
}

#[test]
fn invalid_identifier() {
    let (error, _) = run_error("print missing;");
    assert_eq!(
        error.kind,
        StumbleKind::InvalidIdentifier {
            id: "missing".to_string()
        }
    );
    let (error, written) = run_error("{ print later; }\nvar later = 1;");
    assert_eq!(
        error.kind,
        StumbleKind::InvalidIdentifier {
            id: "later".to_string()
        }
    );
    assert_eq!(written, "");
}

#[test]
fn missing_assignee() {
    let (error, _) = run_error("nothing = 1;");
    assert_eq!(error.kind, StumbleKind::MissingAsignee);
}

#[test]
fn invalid_assign_to() {
    let (mut env, at) = Env::fresh_std_env();
    let mut base = Base::default();
    let target = Expr::mk_numeric(1.0_f64.to_bits());
    let value = Expr::mk_numeric(2.0_f64.to_bits());
    let as_expression = Expr::mk_assignment(target.duplicate(), value.duplicate());
    assert_eq!(
        TreeWalker::eval(&as_expression, &mut env, at, &mut base).map_err(|e| e.kind),
        Err(StumbleKind::InvalidAssignTo)
    );
    let as_statement = Statement::mk_assignment(target, value);
    assert_eq!(
        TreeWalker::interpret(&as_statement, &mut env, at, &mut base).map_err(|e| e.kind),
        Err(StumbleKind::InvalidAssignTo)
    );
    assert_eq!(
        TreeWalker::get_identifier(Expr::mk_nil()).map_err(|e| e.kind),
        Err(StumbleKind::InvalidAssignTo)
    );
    assert_eq!(
        TreeWalker::get_identifier(Expr::mk_identifier("a".to_string(), Some(0))).map(|i| i.name),
        Ok("a".to_string())
    );
}

#[test]
fn assignment_statement_assigns() {
    let (mut env, at) = Env::fresh_std_env();
    let mut base = Base::default();
    env.insert(at, &"a".to_string(), ExprB::Nil);
    let assign = Statement::mk_assignment(
        Expr::mk_identifier("a".to_string(), Some(0)),
        Expr::mk_string("set".to_string()),
    );
    assert_eq!(
        TreeWalker::interpret(&assign, &mut env, at, &mut base),
        Ok((Control::Proceed, ExprB::mk_string("set".to_string())))
    );
    assert_eq!(
        env.get(at, &loxy::ast::Identifier::fresh("a".to_string(), Some(0))),
        Some(ExprB::mk_string("set".to_string()))
    );
}

#[test]
fn expected_lambda() {
    assert_eq!(
        run_error("var a = 1; a();").0.kind,
        StumbleKind::ExpectedLambda
    );
    assert_eq!(
        run_error("\"text\"(1);").0.kind,
        StumbleKind::ExpectedLambda
    );
    let (mut env, at) = Env::fresh_std_env();
    let mut base = Base::default();
    let stale = Expr::mk_call(
        Expr::Basic(ExprB::Lambda {
            env: 99,
            params: vec![],
            body: vec![],
        }),
        vec![],
    );
    assert_eq!(
        TreeWalker::eval(&stale, &mut env, at, &mut base).map_err(|e| e.kind),
        Err(StumbleKind::ExpectedLambda)
    );
}

#[test]
fn step_limit() {
    let mut walker = TreeWalker::default();
    assert_eq!(walker.scan("var a = 0; loop { a = a + 1; print a; }"), Ok(()));
    assert_eq!(walker.parse(), Ok(2));
    let mut system = Base::default();
    system.allow(3);
    let error = walker.interpret_all(&mut system).expect_err("the loop never ends");
    assert_eq!(error.kind, StumbleKind::StepLimit);
    assert_eq!(system.stdio, "1\n2\n3\n");
    assert_eq!(system.steps, 0);
}

#[test]
fn endless_recursion_runs_out_of_steps() {
    let mut walker = TreeWalker::default();
    assert_eq!(walker.scan("fun again(n) { return again(n + 1); }\nagain(0);"), Ok(()));
    assert_eq!(walker.parse(), Ok(2));
    let mut system = Base::default();
    system.allow(500);
    let error = walker.interpret_all(&mut system).expect_err("the recursion never ends");
    assert_eq!(error.kind, StumbleKind::StepLimit);
    assert_eq!(system.steps, 0);
}

#[test]
fn calls_and_rounds_take_one_step_each() {
    let mut walker = TreeWalker::default();
    let input = "fun f() { return 1; }\nf(); f();\nvar a = 0;\nwhile (a < 3) { a = a + 1; }";
    assert_eq!(walker.scan(input), Ok(()));
    assert!(walker.parse().is_ok());
    let mut system = Base::default();
    system.allow(100);
    assert_eq!(walker.interpret_all(&mut system), Ok(()));
    assert_eq!(system.steps, 100 - 2 - 4);
}

#[test]
fn kinds_of_other_errors() {
    assert_eq!(
        StumbleKind::of_env_err(EnvErr::MissingAsignee),
        StumbleKind::MissingAsignee
    );
    assert_eq!(
        StumbleKind::of_token_err(TknErr::TrailingDot),
        StumbleKind::TrailingDot
    );
    assert_eq!(
        StumbleKind::of_token_err(TknErr::MultilineString),
        StumbleKind::MultilineString
    );
    assert_eq!(
        StumbleKind::of_token_err(TknErr::Unrecognised { character: '#' }),
        StumbleKind::Unrecognised { character: '#' }
    );
    assert_eq!(
        StumbleKind::of_eval_err(EvalErr::ConflictingSubexpression),
        StumbleKind::ConflictingSubexpression
    );
    assert_eq!(
        StumbleKind::of_eval_err(EvalErr::InvalidConversion),
        StumbleKind::InvalidConversion
    );
    assert_eq!(
        StumbleKind::of_eval_err(EvalErr::InvalidAssignTo),
        StumbleKind::InvalidAssignTo
    );
    assert_eq!(
        StumbleKind::of_eval_err(EvalErr::InvalidIdentifier {
            id: "a".to_string()
        }),
        StumbleKind::InvalidIdentifier {
            id: "a".to_string()
        }
    );
    assert_eq!(
        StumbleKind::of_eval_err(EvalErr::EnvErr {
            err: EnvErr::MissingAsignee
        }),
        StumbleKind::MissingAsignee
    );
    assert_eq!(ExprB::Nil.to_numeric(), Err(EvalErr::InvalidConversion));
    assert_eq!(
        ExprB::mk_string("x".to_string()).to_numeric(),
        Err(EvalErr::InvalidConversion)
    );
    assert_eq!(ExprB::Nil.to_string(), Err(EvalErr::InvalidConversion));
    let stumble = Stumble {
        location: Location::new(1, 2),
        kind: StumbleKind::Todo,
    };
    assert_eq!(stumble.kind(), &StumbleKind::Todo);
}

#[test]
fn kinds_are_written_out() {
    assert_eq!(StumbleKind::ArgLimit.describe(), "ArgLimit");
    assert_eq!(StumbleKind::StepLimit.describe(), "StepLimit");
    assert_eq!(
        StumbleKind::Unexpected {
            found: TknK::Semicolon
        }
        .describe(),
        "Unexpected { found: Semicolon }"
    );
    assert_eq!(
        StumbleKind::ExpectedFound {
            expected: TknK::ParenR,
            found: TknK::Identifier {
                id: "x".to_string()
            }
        }
        .describe(),
        "ExpectedFound { expected: ParenR, found: Identifier { id: \"x\" } }"
    );
    assert_eq!(
        StumbleKind::InvalidIdentifier {
            id: "x".to_string()
        }
        .describe(),
        "InvalidIdentifier { id: \"x\" }"
    );
    assert_eq!(
        StumbleKind::Unrecognised { character: '@' }.describe(),
        "Unrecognised { character: '@' }"
    );
    assert_eq!(
        TknK::Number {
            literal: 1.5_f64.to_bits()
        }
        .describe(),
        "Number { literal: 1.5 }"
    );
    assert_eq!(
        TknK::String {
            literal: "s".to_string()
        }
        .describe(),
        "String { literal: \"s\" }"
    );
}
