use loxy::ast::{Control, Expr, ExprB, Identifier, OpOne, OpTwo, Statement};
use loxy::base::Base;
use loxy::environment::Env;
use loxy::walker::TreeWalker;

fn output_of(input: &str) -> String {
    let mut walker = TreeWalker::default();
    assert_eq!(walker.scan(input), Ok(()));
    match walker.parse() {
        Ok(_) => {}
        Err(e) => panic!("Parser failure: {e:?}"),
    }
    let mut system = Base::default();
    match walker.interpret_all(&mut system) {
        Ok(()) => {}
        Err(e) => panic!("Interpretation error: {e:?}"),
    }
    system.stdio
}

#[test]
fn division_and_subtraction_group_to_the_right() {
    assert_eq!(output_of("print 8 / 4 / 2;"), "4\n");
    assert_eq!(output_of("print 10 - 4 - 3;"), "9\n");
    assert_eq!(output_of("print 2 * 3 + 4;"), "10\n");
    assert_eq!(output_of("print 2 + 3 * 4;"), "14\n");
    assert_eq!(output_of("print (8 / 4) / 2;"), "1\n");
    assert_eq!(output_of("print 1 < 2 == true;"), "true\n");
}

#[test]
fn print_writes_values_as_text() {
    assert_eq!(output_of("print nil;"), "nil\n");
    assert_eq!(output_of("print true; print false;"), "true\nfalse\n");
    assert_eq!(output_of("print 10; print 1.5; print 0.1 + 0.2;"), "10\n1.5\n0.30000000000000004\n");
    assert_eq!(output_of("print 100 * 100 * 100 * 100;"), "100000000\n");
    assert_eq!(output_of("print 1 / 3;"), "0.3333333333333333\n");
    assert_eq!(output_of("print -0;"), "-0\n");
    assert_eq!(output_of("print 1 / 0; print -1 / 0; print 0 / 0;"), "inf\n-inf\nNaN\n");
    assert_eq!(output_of("print \"as it is \\n\";"), "as it is \\n\n");
    assert_eq!(output_of("print \"\";"), "\n");
    assert_eq!(output_of("fun f() {} print f;"), "\u{3bb}\n");
}

#[test]
fn values_are_written_out() {
    assert_eq!(ExprB::Nil.display(), "nil");
    assert_eq!(ExprB::mk_bool(true).display(), "true");
    assert_eq!(ExprB::mk_numeric(2.5_f64.to_bits()).display(), "2.5");
    assert_eq!(ExprB::mk_string("s".to_string()).display(), "s");
    assert_eq!(Identifier::fresh("a".to_string(), Some(12)).display(), "a[12]");
    assert_eq!(Identifier::fresh("a".to_string(), None).display(), "a[-]");
    assert_eq!(OpOne::Bang.display(), "!");
    assert_eq!(OpTwo::Geq.display(), ">=");
    let call = Expr::mk_call(
        Expr::mk_identifier("f".to_string(), Some(0)),
        vec![
            Expr::mk_nil(),
            Expr::mk_or(Expr::mk_true(), Expr::mk_false()),
            Expr::mk_and(Expr::Empty, Expr::mk_string("s".to_string())),
        ],
    );
    assert_eq!(call.display(), "f[0](nil, (OR true false), (AND nil s))");
    let assign = Expr::mk_assignment(
        Expr::mk_identifier("a".to_string(), None),
        Expr::mk_call(Expr::mk_identifier("g".to_string(), Some(1)), vec![]),
    );
    assert_eq!(assign.display(), "a[-] = g[1]()");
}

#[test]
fn equality_in_programs() {
    assert_eq!(output_of("print nil == nil;"), "true\n");
    assert_eq!(output_of("print \"64.0\" == 64.0;"), "false\n");
    assert_eq!(output_of("print \"a\" != \"a\"; print 1 != 2;"), "false\ntrue\n");
    assert_eq!(output_of("print (0 / 0) == (0 / 0);"), "false\n");
    assert_eq!(output_of("print 0 == -0;"), "true\n");
    assert_eq!(output_of("print nil == false;"), "false\n");
}

#[test]
fn truthiness() {
    assert_eq!(output_of("if (0) print \"yes\"; else print \"no\";"), "yes\n");
    assert_eq!(output_of("if (\"\") print \"yes\"; else print \"no\";"), "yes\n");
    assert_eq!(output_of("if (nil) print \"yes\"; else print \"no\";"), "no\n");
    assert_eq!(output_of("print !nil; print !0; print !!\"\";"), "true\nfalse\ntrue\n");
}

#[test]
fn logic_gives_the_deciding_operand() {
    assert_eq!(output_of("print 1 or 2;"), "1\n");
    assert_eq!(output_of("print nil or 2;"), "2\n");
    assert_eq!(output_of("print false or nil;"), "nil\n");
    assert_eq!(output_of("print 1 and 2;"), "2\n");
    assert_eq!(output_of("print nil and 2;"), "nil\n");
    assert_eq!(output_of("print false and 2;"), "false\n");
    assert_eq!(output_of("print nil or false or 3;"), "3\n");
    assert_eq!(output_of("print 1 and 2 and 3;"), "3\n");
    assert_eq!(output_of("print nil or 1 and 2;"), "2\n");
}

#[test]
fn logic_does_not_evaluate_what_is_decided() {
    let noisy = "fun noisy(v) { print \"evaluated\"; return v; }\n";
    assert_eq!(output_of(&format!("{noisy}print true or noisy(1);")), "true\n");
    assert_eq!(output_of(&format!("{noisy}print false and noisy(1);")), "false\n");
    assert_eq!(output_of(&format!("{noisy}print nil and noisy(1);")), "nil\n");
    assert_eq!(
        output_of(&format!("{noisy}print false or noisy(1);")),
        "evaluated\n1\n"
    );
    assert_eq!(
        output_of(&format!("{noisy}print true and noisy(2);")),
        "evaluated\n2\n"
    );
    assert_eq!(
        output_of(&format!("{noisy}print noisy(nil) or noisy(3);")),
        "evaluated\nevaluated\n3\n"
    );
}

#[test]
fn assignment_is_an_expression() {
    assert_eq!(output_of("var a; var b; print a = b = 3; print a; print b;"), "3\n3\n3\n");
    assert_eq!(output_of("var a = 1; { a = 2; } print a;"), "2\n");
    assert_eq!(output_of("var a = 1; { var a = 5; a = 6; print a; } print a;"), "6\n1\n");
}

#[test]
fn declarations() {
    assert_eq!(output_of("var a; print a;"), "nil\n");
    assert_eq!(output_of("var a = 1; var a = 2; print a;"), "2\n");
    assert_eq!(output_of("var a = 1; { var a = a + 2; print a; } print a;"), "3\n1\n");
}

#[test]
fn loops() {
    assert_eq!(output_of("var a = 0; while (a < 3) { a = a + 1; } print a;"), "3\n");
    assert_eq!(output_of("while (false) { print 1; }"), "");
    assert_eq!(
        output_of("var a = 0; loop { a = a + 1; if (a == 2) { break; } print a; } print a;"),
        "1\n2\n"
    );
    assert_eq!(
        output_of("var a = 0; while (true) { a = a + 1; if (a > 2) break; print a; }"),
        "1\n2\n"
    );
    assert_eq!(output_of("for (var i = 0; i < 3; i = i + 1) { print i; }"), "0\n1\n2\n");
    assert_eq!(
        output_of("var i = 5; for (; i < 7; i = i + 1) { print i; } print i;"),
        "5\n6\n7\n"
    );
    assert_eq!(
        output_of("for (var i = 0; ; ) { if (i == 2) { break; } i = i + 1; print i; }"),
        "1\n2\n"
    );
    assert_eq!(
        output_of("for (var i = 0; i < 2; i = i + 1) { var j = i * 10; print j; }"),
        "0\n10\n"
    );
}

#[test]
fn each_round_has_a_frame_of_its_own() {
    let input = "var n = 0;\nwhile (n < 3) {\n  var fresh;\n  print fresh;\n  fresh = n;\n  n = n + 1;\n}";
    assert_eq!(output_of(input), "nil\nnil\nnil\n");
}

#[test]
fn break_leaves_one_loop_only() {
    let input = "var a = 0;\nwhile (a < 2) {\n  a = a + 1;\n  loop { break; print \"never\"; }\n  print a;\n}";
    assert_eq!(output_of(input), "1\n2\n");
}

#[test]
fn a_block_stops_at_break() {
    let input = "loop { { break; print \"never\"; } print \"never\"; }\nprint \"after\";";
    assert_eq!(output_of(input), "after\n");
}

#[test]
fn functions() {
    assert_eq!(output_of("fun f() { print 1; } f(); f();"), "1\n1\n");
    assert_eq!(output_of("fun f() {} print f();"), "nil\n");
    assert_eq!(output_of("fun f() { return; } print f();"), "nil\n");
    assert_eq!(output_of("fun add(a, b) { return a + b; } print add(1, 2);"), "3\n");
    assert_eq!(
        output_of("fun f(a) { if (a) { return \"yes\"; } return \"no\"; } print f(1); print f(nil);"),
        "yes\nno\n"
    );
    assert_eq!(
        output_of("fun f() { var i = 0; while (true) { i = i + 1; if (i == 3) { return i; } } } print f();"),
        "3\n"
    );
    assert_eq!(
        output_of("fun f() { return 1; print \"never\"; } print f();"),
        "1\n"
    );
    assert_eq!(
        output_of("fun fib(n) { if (n < 2) { return n; } return fib(n - 1) + fib(n - 2); } print fib(15);"),
        "610\n"
    );
}

#[test]
fn arguments_are_evaluated_left_to_right_in_the_callers_frame() {
    let input = "fun show(v) { print v; return v; }\nfun take(a, b, c) { print a + b + c; }\ntake(show(1), show(2), show(3));";
    assert_eq!(output_of(input), "1\n2\n3\n6\n");
    let input = "var a = \"caller\";\nfun f(v) { var a = \"callee\"; print v; }\nf(a);";
    assert_eq!(output_of(input), "caller\n");
}

#[test]
fn arguments_without_a_parameter_are_not_evaluated() {
    let input = "fun show(v) { print v; return v; }\nfun one(a) { print a; }\none(show(1), show(2));";
    assert_eq!(output_of(input), "1\n1\n");
}

#[test]
fn a_parameter_without_an_argument_is_unbound() {
    let mut walker = TreeWalker::default();
    assert_eq!(walker.scan("fun two(a, b) { print a; print b; }\ntwo(1);"), Ok(()));
    assert!(walker.parse().is_ok());
    let mut system = Base::default();
    let error = walker.interpret_all(&mut system).expect_err("b has no value");
    assert_eq!(
        error.kind,
        loxy::err::StumbleKind::InvalidIdentifier {
            id: "b".to_string()
        }
    );
    assert_eq!(system.stdio, "1\n");
}

#[test]
fn closures_capture_their_frame() {
    let input = "fun counter() {\n  var n = 0;\n  fun next() { n = n + 1; return n; }\n  return next;\n}\nvar a = counter();\nvar b = counter();\nprint a(); print a(); print b(); print a();";
    assert_eq!(output_of(input), "1\n2\n1\n3\n");
}

#[test]
fn closures_are_lexical() {
    let input = "var a = \"global\";\n{\n  fun showA() { print a; }\n  showA();\n  var a = \"block\";\n  showA();\n  print a;\n}";
    assert_eq!(output_of(input), "global\nglobal\nblock\n");
}

#[test]
fn comments_and_blanks_are_passed_over() {
    let input = "// a comment\nprint 1; // another\n\t print  2 ;// last";
    assert_eq!(output_of(input), "1\n2\n");
    assert_eq!(output_of("print 4 / 2; // 2"), "2\n");
}

#[test]
fn loops_leave_no_frames_behind() {
    let mut walker = TreeWalker::default();
    let input = "var a = 0;\nwhile (a < 50) { { var b = a; a = b + 1; } }\nfor (var i = 0; i < 20; i = i + 1) { if (i > 10) { break; } }\nloop { { { break; } } }\nfun f(n) { { return n; } }\nf(1); f(2);";
    assert_eq!(walker.scan(input), Ok(()));
    assert!(walker.parse().is_ok());
    let before = walker.interpret_env.size();
    let mut system = Base::default();
    assert_eq!(walker.interpret_all(&mut system), Ok(()));
    assert_eq!(walker.interpret_env.size(), before);
    assert_eq!(walker.parse_env.size(), 2);
}

#[test]
fn a_failing_statement_leaves_no_frames_behind() {
    let mut walker = TreeWalker::default();
    assert_eq!(walker.scan("{ { fun f(a) { { print missing; } } f(1); } }"), Ok(()));
    assert!(walker.parse().is_ok());
    let mut system = Base::default();
    assert!(walker.interpret_all(&mut system).is_err());
    assert!(walker.interpret_env.frames.last().unwrap().captured);
}

#[test]
fn captured_frames_stay() {
    let mut walker = TreeWalker::default();
    assert_eq!(walker.scan("{ fun f() {} }"), Ok(()));
    assert!(walker.parse().is_ok());
    let before = walker.interpret_env.size();
    let mut system = Base::default();
    assert_eq!(walker.interpret_all(&mut system), Ok(()));
    assert_eq!(walker.interpret_env.size(), before + 1);
    assert!(walker.interpret_env.frames.last().unwrap().captured);
}

#[test]
fn statements_have_values() {
    let (mut env, at) = Env::fresh_std_env();
    let mut base = Base::default();
    let three = || Expr::mk_numeric(3.0_f64.to_bits());
    let three_value = ExprB::mk_numeric(3.0_f64.to_bits());
    let run = |s: Statement, env: &mut Env, base: &mut Base| {
        TreeWalker::interpret(&s, env, at, base).unwrap()
    };
    assert_eq!(
        run(Statement::Empty, &mut env, &mut base),
        (Control::Proceed, ExprB::Nil)
    );
    assert_eq!(
        run(Statement::Break, &mut env, &mut base),
        (Control::Break, ExprB::Nil)
    );
    assert_eq!(
        run(Statement::mk_expression(three()), &mut env, &mut base),
        (Control::Proceed, three_value.duplicate())
    );
    assert_eq!(
        run(Statement::Return { expr: three() }, &mut env, &mut base),
        (Control::Return, three_value.duplicate())
    );
    assert_eq!(
        run(Statement::mk_print(three()), &mut env, &mut base),
        (Control::Proceed, ExprB::Nil)
    );
    assert_eq!(
        run(
            Statement::mk_declaration(Identifier::fresh("a".to_string(), None), three()),
            &mut env,
            &mut base
        ),
        (Control::Proceed, three_value.duplicate())
    );
    assert_eq!(
        run(
            Statement::mk_block(vec![
                Statement::mk_expression(Expr::mk_true()),
                Statement::mk_expression(three())
            ]),
            &mut env,
            &mut base
        ),
        (Control::Proceed, three_value.duplicate())
    );
    assert_eq!(
        run(Statement::mk_block(vec![]), &mut env, &mut base),
        (Control::Proceed, ExprB::Nil)
    );
    assert_eq!(
        run(
            Statement::mk_block(vec![
                Statement::Return { expr: three() },
                Statement::mk_print(three())
            ]),
            &mut env,
            &mut base
        ),
        (Control::Return, three_value.duplicate())
    );
    assert_eq!(
        run(
            Statement::mk_conditional(Expr::mk_false(), Statement::Break, None),
            &mut env,
            &mut base
        ),
        (Control::Proceed, ExprB::Nil)
    );
    assert_eq!(
        run(
            Statement::mk_loop(vec![Statement::Break]),
            &mut env,
            &mut base
        ),
        (Control::Proceed, ExprB::Nil)
    );
    assert_eq!(
        run(
            Statement::mk_while(Expr::mk_true(), vec![Statement::Return { expr: three() }]),
            &mut env,
            &mut base
        ),
        (Control::Return, three_value.duplicate())
    );
    assert_eq!(
        run(
            Statement::mk_function(Identifier::fresh("f".to_string(), None), vec![], vec![]),
            &mut env,
            &mut base
        ),
        (Control::Proceed, ExprB::Nil)
    );
    assert_eq!(base.stdio, "3\n");
    assert_eq!(
        TreeWalker::eval(&Expr::Empty, &mut env, at, &mut base),
        Ok(ExprB::Nil)
    );
    assert_eq!(
        TreeWalker::eval(&Expr::mk_grouping(three()), &mut env, at, &mut base),
        Ok(three_value)
    );
}

#[test]
fn typed_evaluation() {
    let (mut env, at) = Env::fresh_std_env();
    let mut base = Base::default();
    let conflict = Err(loxy::err::StumbleKind::ConflictingSubexpression);
    let text = Expr::mk_string("12".to_string());
    let number = Expr::mk_numeric(12.0_f64.to_bits());
    assert_eq!(
        TreeWalker::eval_boolean(&Expr::mk_true(), &mut env, at, &mut base).map_err(|e| e.kind),
        Ok(true)
    );
    assert_eq!(
        TreeWalker::eval_boolean(&number, &mut env, at, &mut base).map_err(|e| e.kind),
        conflict
    );
    assert_eq!(
        TreeWalker::eval_numeric(&number, &mut env, at, &mut base).map_err(|e| e.kind),
        Ok(12.0_f64.to_bits())
    );
    assert_eq!(
        TreeWalker::eval_numeric(&text, &mut env, at, &mut base).map_err(|e| e.kind),
        Ok(12.0_f64.to_bits())
    );
    assert_eq!(
        TreeWalker::eval_numeric(&Expr::mk_nil(), &mut env, at, &mut base).map_err(|e| e.kind),
        Err(loxy::err::StumbleKind::ConflictingSubexpression)
    );
    assert_eq!(
        TreeWalker::eval_string(&text, &mut env, at, &mut base).map_err(|e| e.kind),
        Ok("12".to_string())
    );
    assert_eq!(
        TreeWalker::eval_string(&number, &mut env, at, &mut base).map_err(|e| e.kind),
        Err(loxy::err::StumbleKind::ConflictingSubexpression)
    );
}

#[test]
fn copies_are_equal() {
    let mut walker = TreeWalker::default();
    let input = "fun f(a, b) { var c = a or b; while (c < 3) { c = c + 1; } return -c; }\nfor (var i = 0; i < 2; i = i + 1) { if (i == 1) { print f(i, \"x\"); } else { loop { break; } } }";
    assert_eq!(walker.scan(input), Ok(()));
    assert!(walker.parse().is_ok());
    for statement in walker.statements() {
        assert_eq!(&statement.duplicate(), statement);
    }
    for token in &walker.parser.tokens {
        assert_eq!(&token.duplicate(), token);
        assert!(token.is(token.kind.duplicate()));
    }
}

fn names_of(walker: &TreeWalker) -> Vec<Vec<String>> {
    walker.interpret_env.frames.iter().map(|frame| frame.names.clone()).collect()
}

#[test]
fn a_loop_leaves_the_names_of_its_frame_alone() {
    let mut walker = TreeWalker::default();
    let input = "var i = 0; var sum = 0; \
                 loop { var t = i * 2; sum = sum + t; i = i + 1; if (i >= 4) break; } \
                 while (i < 8) { var u = i; i = i + 1; } \
                 for (var k = 0; k < 3; k = k + 1) { var v = k; sum = sum + v; } \
                 { var w = 1; } \
                 print sum;";
    assert_eq!(walker.scan(input), Ok(()));
    assert_eq!(walker.parse(), Ok(7));
    let mut system = Base::default();
    assert_eq!(walker.interpret_index(&mut system, 0), Ok(()));
    assert_eq!(walker.interpret_index(&mut system, 1), Ok(()));
    let before = names_of(&walker);
    assert_eq!(before[walker.interpret_at], vec!["i".to_string(), "sum".to_string()]);
    for index in 2..7 {
        assert_eq!(walker.interpret_index(&mut system, index), Ok(()));
        assert_eq!(names_of(&walker), before);
    }
    assert_eq!(system.stdio, "15\n");
}

#[test]
fn a_loop_that_makes_a_function_keeps_the_names_of_the_frames_around_it() {
    let mut walker = TreeWalker::default();
    let input = "var f = nil; loop { fun g() { return 7; } f = g; break; } print f();";
    assert_eq!(walker.scan(input), Ok(()));
    assert_eq!(walker.parse(), Ok(3));
    let mut system = Base::default();
    assert_eq!(walker.interpret_index(&mut system, 0), Ok(()));
    let before = names_of(&walker);
    assert_eq!(walker.interpret_index(&mut system, 1), Ok(()));
    let after = names_of(&walker);
    assert_eq!(after.len(), before.len() + 1);
    assert_eq!(after[..before.len()], before[..]);
    assert_eq!(after[before.len()], vec!["g".to_string()]);
    assert_eq!(walker.interpret_index(&mut system, 2), Ok(()));
    assert_eq!(system.stdio, "7\n");
}

#[test]
fn names_may_hold_any_alphabetic_character() {
    assert_eq!(output_of("var größe = 3; var 数 = größe * 2; print 数;"), "6\n");
    assert_eq!(output_of("fun añadir(α, β) { return α + β; } print añadir(1, 2);"), "3\n");
}

#[test]
fn a_declaration_that_is_passed_over_leaves_its_name_unbound() {
    let mut walker = TreeWalker::default();
    assert_eq!(walker.scan("if (false) var x = 1; print x;"), Ok(()));
    assert_eq!(walker.parse(), Ok(2));
    match &walker.statements()[1] {
        Statement::Print { e: Expr::Identifier { id } } => assert_eq!(id.offset, Some(0)),
        other => panic!("No print of a name: {other:?}"),
    }
    let mut system = Base::default();
    assert_eq!(
        walker.interpret_all(&mut system).map_err(|e| e.kind),
        Err(loxy::err::StumbleKind::InvalidIdentifier { id: "x".to_string() })
    );
    assert_eq!(system.stdio, "");
}

#[test]
fn a_declaration_binds_its_name_where_it_stands() {
    let mut walker = TreeWalker::default();
    assert_eq!(walker.scan("var a = 1; { var a = 2; print a; } print a;"), Ok(()));
    assert_eq!(walker.parse(), Ok(3));
    let mut system = Base::default();
    assert_eq!(walker.interpret_index(&mut system, 0), Ok(()));
    let at = walker.interpret_at;
    assert_eq!(walker.interpret_env.offset(at, &"a".to_string()), Some(0));
    assert_eq!(walker.interpret_env.frames[at].values, vec![ExprB::mk_numeric(f64::to_bits(1.0))]);
    assert_eq!(walker.interpret_index(&mut system, 1), Ok(()));
    assert_eq!(walker.interpret_index(&mut system, 2), Ok(()));
    assert_eq!(system.stdio, "2\n1\n");
}
