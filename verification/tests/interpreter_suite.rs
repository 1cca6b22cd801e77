use loxy::base::Base;
use loxy::err::StumbleKind;
use loxy::walker::TreeWalker;

fn check_io(input: &str, output: &str) {
    let mut walker = TreeWalker::default();

    match walker.scan(input) {
        Ok(()) => {}

        Err(e) => panic!("Scanner failure: {e:?}"),
    };

    match walker.parse() {
        Ok(_) => {}

        Err(e) => panic!("Parser failure: {e:?}"),
    };

    let mut system = Base::default();

    match walker.interpret_all(&mut system) {
        Ok(_) => {}

        Err(e) => panic!("Interpretation error: {e:?}"),
    };

    assert_eq!(system.stdio.trim(), output);
}

// A call of a name that nothing declares writes nothing: the name is
// found to be unknown as soon as it is evaluated.
fn check_unknown(input: &str, output: &str, name: &str) {
    let mut walker = TreeWalker::default();

    match walker.scan(input) {
        Ok(()) => {}

        Err(e) => panic!("Scanner failure: {e:?}"),
    };

    match walker.parse() {
        Ok(_) => {}

        Err(e) => panic!("Parser failure: {e:?}"),
    };

    let mut system = Base::default();

    match walker.interpret_all(&mut system) {
        Ok(_) => panic!("Expected an unknown name"),

        Err(e) => assert_eq!(
            e.kind,
            StumbleKind::InvalidIdentifier {
                id: name.to_string()
            }
        ),
    };

    assert_eq!(system.stdio.trim(), output);
}

#[test]
fn interpreter_print() {
        check_io("print 5 + 5; print 5 - 5; ", "10\n0");

        check_io("print true;", "true");

        check_io("print !true;", "false");
}

#[test]
fn interpreter_print_string() {
        let input = r#"print "print";"#;

        check_io(input, "print");
}

#[test]
fn interpreter_declaration() {
        let input = r#"
var test = "testing";
test = "testing again";
print test;"#;

        check_io(input, "testing again");
}

#[test]
fn interpreter_nested() {
        let input = r#"
var a = "a";
var b = "b";
a = b = "c";
print a;
"#;

        check_io(input, "c");
}

#[test]
fn interpreter_print_addition() {
        let input = "
var a = 3;
var b = 3;
print (a * b) / (a + b);
";
        check_io(input, "1.5");
}

#[test]
fn interpreter_var_nil() {
        let input = "
var a;
print a;
";
        check_io(input, "nil");
}

#[test]
fn interpreter_block_basic() {
        let input = "
var a;
print a;
{
  a = 1;
  print a;
}
print a;
";
        check_io(input, "nil\n1\n1");
}

#[test]
fn interpreter_block_nested() {
        let input = r#"
var a = "global a";
var b = "global b";
var c = "global c";
{
  var a = "outer a";
  var b = "outer b";
  {
    var a = "inner a";
    print a;
    print b;
    print c;
  }
  print a;
  print b;
  print c;
}
print a;
print b;
print c;
"#;
        check_io(
            input,
            "inner a
outer b
global c
outer a
outer b
global c
global a
global b
global c",
        );
}

#[test]
fn interpreter_challenge() {
        let input = r#"
var a = 1;
{
   var a = a + 2;
   print a;
}
"#;

        check_io(input, "3");
}

#[test]
fn interpreter_conditional() {
        let input = r#"
if (false != true)
  print "ok";
"#;
        check_io(input, "ok");

        let input = r#"
if (false == true)
  print "nok";
"#;
        check_io(input, "");

        let input = r#"
if (false == true)
  print "nok";
else
  print "ok";
"#;
        check_io(input, "ok");
}

#[test]
fn interpreter_logic_or() {
        let input = r#"
if (true or true)
  print "ok";
"#;
        check_io(input, "ok");

        let input = r#"
if (true or false)
  print "ok";
"#;
        check_io(input, "ok");

        let input = r#"
if (false or true)
  print "ok";
"#;
        check_io(input, "ok");

        let input = r#"
if (false or false)
  print "nok";
else
  print "ok";
"#;
        check_io(input, "ok");
}

#[test]
fn interpreter_logic_and() {
        let input = r#"
if (true and true)
  print "ok";
"#;
        check_io(input, "ok");

        let input = r#"
if (true and false)
  print "nok";
else
  print "ok";
"#;
        check_io(input, "ok");

        let input = r#"
if (false and true)
  print "nok";
else
  print "ok";
"#;
        check_io(input, "ok");

        let input = r#"
if (false and false)
  print "nok";
else
  print "ok";
"#;
        check_io(input, "ok");
}

#[test]
fn interpreter_logic_mix() {
        let input = r#"
var a = 2 * 2;
if ((a or false) and 2 / 2 == 1)
  print a;
"#;
        check_io(input, "4");
}

#[test]
fn interpreter_while_simple() {
        let input = r#"
var a = 1;
while (a < 4) {
  print a;
  a = a + 1;
}
print a;
"#;
        check_io(input, "1\n2\n3\n4");
}

#[test]
fn interpreter_for_simple() {
        let input = r#"
for (var a = 1; a < 5; a = a + 1) {
  print a;
}
"#;
        check_io(input, "1\n2\n3\n4");
}

#[test]
fn interpreter_for_fibonacci() {
        let input = r#"
var a = 0;
var temp;
for (var b = 1; a < 150; b = temp + b) {
  print a;
  temp = a;
  a = b;
}
"#;
        check_io(input, "0\n1\n1\n2\n3\n5\n8\n13\n21\n34\n55\n89\n144");
}

#[test]
fn basic_call() {
        let input = r#"
add(1, 2);
"#;
        check_unknown(input, "", "add");
}

#[test]
fn interpreter_basic_call_call() {
        let input = r#"
add(1, 2)(3);
"#;
        check_unknown(input, "", "add");
}

#[test]
fn empty_call() {
        let input = r#"
empty_call();
"#;
        check_unknown(input, "", "empty_call");
}
