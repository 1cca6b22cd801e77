use loxy::base::Base;
use loxy::walker::TreeWalker;

fn test_io(input: &str, output: &str) {
    let mut walker = TreeWalker::default();

    match walker.scan(input) {
        Ok(()) => {}

        Err(e) => panic!("Scanner failure: {e:?}"),
    };

    match walker.parse() {
        Ok(_) => {}

        Err(e) => panic!("Parser failure: {e:?}"),
    };

    let mut system = Base::default();

    match walker.interpret_all(&mut system) {
        Ok(_) => {}

        Err(e) => panic!("Interpretation error: {e:?}"),
    };

    assert_eq!(system.stdio.trim(), output);
}

#[test]
fn tests_print() {
        test_io("print 5 + 5; print 5 - 5; ", "10\n0");

        test_io("print true;", "true");

        test_io("print !true;", "false");
}

#[test]
fn tests_print_string() {
        let input = r#"print "print";"#;

        test_io(input, "print");
}

#[test]
fn tests_print_addition() {
        let input = "
var a = 3;
var b = 3;
print (a * b) / (a + b);
";
        test_io(input, "1.5");
}

#[test]
fn tests_declaration() {
        let input = r#"
var test = "testing";
test = "testing again";
print test;"#;

        test_io(input, "testing again");
}

#[test]
fn tests_nested() {
        let input = r#"
var a = "a";
var b = "b";
a = b = "c";
print a;
"#;

        test_io(input, "c");
}

#[test]
fn tests_var_nil() {
        let input = "
var a;
print a;
";
        test_io(input, "nil");
}

#[test]
fn tests_block_basic() {
        let input = "
var a;
print a;
{
  a = 1;
  print a;
}
print a;
";
        test_io(input, "nil\n1\n1");
}

#[test]
fn tests_block_nested() {
        let input = r#"
var a = "global a";
var b = "global b";
var c = "global c";
{
  var a = "outer a";
  var b = "outer b";
  {
    var a = "inner a";
    print a;
    print b;
    print c;
  }
  print a;
  print b;
  print c;
}
print a;
print b;
print c;
"#;
        test_io(
            input,
            "inner a
outer b
global c
outer a
outer b
global c
global a
global b
global c",
        );
}

#[test]
fn tests_challenge() {
        let input = r#"
var a = 1;
{
   var a = a + 2;
   print a;
}
"#;

        test_io(input, "3");
}

#[test]
fn tests_while_simple() {
        let input = r#"
var a = 1;
while (a < 4) {
  print a;
  a = a + 1;
}
print a;
"#;
        test_io(input, "1\n2\n3\n4");
}

#[test]
fn loop_break() {
        let input = r#"
var a = 1;
loop {
  a = a + 1;

  if (3 < a) {
    break;
  } else {
    print a;
  }
}
print a;
"#;
        test_io(input, "2\n3\n4");
}

#[test]
fn nested_break() {
        let input = r#"
for (var a = 0; a < 5; a = a + 1) {
  if (1 < a) {
    break;
  }
  for (var b = 0; b < 10; b = b + 1) {
    if (1 < b) {
      break;
    }
    print a + b;
  }
}

"#;
        test_io(input, "0\n1\n1\n2");
}

#[test]
fn tests_for_simple() {
        let input = r#"
for (var a = 1; a < 5; a = a + 1) {
  print a;
}
"#;
        test_io(input, "1\n2\n3\n4");
}

#[test]
fn tests_for_fibonacci() {
        let input = r#"
var a = 0;
var temp;
for (var b = 1; a < 150; b = temp + b) {
  print a;
  temp = a;
  a = b;
}
"#;
        test_io(input, "0\n1\n1\n2\n3\n5\n8\n13\n21\n34\n55\n89\n144");
}

#[test]
fn water() {
        let input = r#"
var a = "global";
{
  fun showA() {
    print a;
  }
  showA();
  var a = "block";
  showA();
}
"#;
        test_io(input, "global\nglobal");
}

#[test]
fn tests_conditional() {
        let input = r#"
if (false != true)
  print "ok";
"#;
        test_io(input, "ok");

        let input = r#"
if (false == true)
  print "nok";
"#;
        test_io(input, "");

        let input = r#"
if (false == true)
  print "nok";
else
  print "ok";
"#;
        test_io(input, "ok");
}

#[test]
fn tests_logic_or() {
        let input = r#"
if (true or true)
  print "ok";
"#;
        test_io(input, "ok");

        let input = r#"
if (true or false)
  print "ok";
"#;
        test_io(input, "ok");

        let input = r#"
if (false or true)
  print "ok";
"#;
        test_io(input, "ok");

        let input = r#"
if (false or false)
  print "nok";
else
  print "ok";
"#;
        test_io(input, "ok");
}

#[test]
fn tests_logic_and() {
        let input = r#"
if (true and true)
  print "ok";
"#;
        test_io(input, "ok");

        let input = r#"
if (true and false)
  print "nok";
else
  print "ok";
"#;
        test_io(input, "ok");

        let input = r#"
if (false and true)
  print "nok";
else
  print "ok";
"#;
        test_io(input, "ok");

        let input = r#"
if (false and false)
  print "nok";
else
  print "ok";
"#;
        test_io(input, "ok");
}

#[test]
fn tests_logic_mix() {
        let input = r#"
var a = 2 * 2;
if ((a or false) and 2 / 2 == 1)
  print a;
"#;
        test_io(input, "4");
}

#[test]
fn tests_basic_call_call() {
        let input = r#"

fun back() {
  fun forward() {
    return 2;
  }

  return forward;
}

print back()();
"#;
        test_io(input, "2");
}

#[test]
fn fn_ternary_addition() {
        let input = r#"
fun add(a, b, c) {
  return a + b + c;
}

print add(1, 2, 3);
"#;
        test_io(input, "6");
}
