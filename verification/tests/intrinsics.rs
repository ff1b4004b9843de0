use minilang::error::Event;
use minilang::number::{Float, Integer};
use minilang::run::Runtime;
use minilang::value::Value;

fn integer(n: usize) -> Value {
    Value::Integer(Integer::from_usize(n))
}

fn string(text: &str) -> Value {
    Value::String(text.to_string())
}

/// The value of a text run in a fresh runtime, and its events.
fn run(text: &str) -> (Value, Vec<Event>) {
    let mut r = Runtime::new();
    let v = r.run(text);
    (v, r.take_events())
}

fn value(text: &str) -> Value {
    let (v, events) = run(text);
    assert_eq!(events, vec![]);
    v
}

fn failure(text: &str) -> String {
    let (v, mut events) = run(text);
    assert_eq!(v, Value::Nil);
    assert_eq!(events.len(), 1);
    match events.pop().unwrap() {
        Event::Diagnostic(m) => m,
        Event::Output(m) => panic!("unexpected output {}", m),
    }
}

#[test]
fn disp_and_displn() {
    assert_eq!(run("disp(1, \"a\", $[2]);"), (Value::Nil, vec![
        Event::Output("1".to_string()),
        Event::Output("a".to_string()),
        Event::Output("[2,]".to_string()),
    ]));
    assert_eq!(run("displn(1, nil(1));"), (Value::Nil, vec![
        Event::Output("1\n".to_string()),
        Event::Output("true\n".to_string()),
    ]));
    assert_eq!(run("disp();"), (Value::Nil, vec![]));
    assert_eq!(run("displn(1.5 + 1);"), (Value::Nil, vec![Event::Output("2.5\n".to_string())]));
}

#[test]
fn pop() {
    assert_eq!(value("pop($[1, 2, 3], 1);"), Value::List(vec![integer(1), integer(3)]));
    assert_eq!(value("pop($[1, 2, 3], 0);"), Value::List(vec![integer(2), integer(3)]));
    assert_eq!(value("pop($[1, 2, 3], 1.6);"), Value::List(vec![integer(1), integer(2)]));
    assert_eq!(value("pop($[1, 2], 1 < 2);"), Value::List(vec![integer(1)]));
    assert_eq!(failure("pop($[1, 2, 3], 3);"), "pop called with out of bounds index");
    assert_eq!(failure("pop($[1, 2, 3], 0 - 1);"), "pop called with out of bounds index");
    assert_eq!(failure("pop($[1, 2, 3], 18446744073709551617);"), "pop called with out of bounds index");
    assert_eq!(failure("pop($[1, 2, 3], 18446744073709551616);"), "pop called with out of bounds index");
    assert_eq!(value("pop($[1, 2, 3], 2);"), Value::List(vec![integer(1), integer(2)]));
    let usage = "Calls to pop should have 2 arguments : a vector followed by a number";
    assert_eq!(failure("pop($[1]);"), usage);
    assert_eq!(failure("pop($[1], 0, 0);"), usage);
    assert_eq!(failure("pop(7, 0);"), usage);
    assert_eq!(failure("pop($[1], \"0\");"), usage);
}

#[test]
fn get() {
    assert_eq!(value("get($[1, 2, 3], 2);"), integer(3));
    assert_eq!(value("get($[1, $[2], 3], 1);"), Value::List(vec![integer(2)]));
    assert_eq!(value("get($[1, 2, 3], 0.4);"), integer(1));
    assert_eq!(failure("get($[1, 2, 3], 3);"), "get called with out of bounds index");
    assert_eq!(failure("get($[], 0);"), "get called with out of bounds index");
    assert_eq!(failure("get($[1], 0 - 1);"), "get called with out of bounds index");
    assert_eq!(failure("get($[1], 18446744073709551616);"), "get called with out of bounds index");
    assert_eq!(failure("get($[1, 2], 18446744073709551617);"), "get called with out of bounds index");
    let usage = "Calls to get should have 2 arguments : a vector followed by a number";
    assert_eq!(failure("get($[1]);"), usage);
    assert_eq!(failure("get(\"abc\", 0);"), usage);
    assert_eq!(failure("get($[1], $[0]);"), usage);
}

#[test]
fn dim() {
    assert_eq!(value("dim(\"abc\");"), integer(3));
    assert_eq!(value("dim(\"\");"), integer(0));
    assert_eq!(value("dim(\"é\");"), integer(2));
    assert_eq!(value("dim($[1, 2]);"), integer(2));
    assert_eq!(value("dim($[]);"), integer(0));
    assert_eq!(value("dim(17);"), integer(0));
    assert_eq!(value("dim(1.5);"), integer(0));
    assert_eq!(value("dim(1 < 2);"), integer(0));
    assert_eq!(value("dim({});"), integer(0));
    assert_eq!(failure("dim();"), "Calls to dim should have ONE arguments");
    assert_eq!(failure("dim(1, 2);"), "Calls to dim should have ONE arguments");
}

#[test]
fn vec_str_int_nil() {
    assert_eq!(value("vec(1);"), Value::List(vec![integer(1)]));
    assert_eq!(value("vec($[1]);"), Value::List(vec![integer(1)]));
    assert_eq!(value("vec({});"), Value::Nil);
    assert_eq!(failure("vec();"), "Calls to vec should have ONE arguments");

    assert_eq!(value("str(12);"), string("12"));
    assert_eq!(value("str(\"x\");"), string("x"));
    assert_eq!(value("str($[1, \"a\"]);"), string("[Integer(1), String(\"a\")]"));
    assert_eq!(failure("str(1, 2);"), "Calls to str should have ONE arguments");

    assert_eq!(value("int(2.5);"), integer(2));
    assert_eq!(value("int(1 < 2);"), integer(1));
    assert_eq!(value("int(\"12\");"), Value::Nil);
    assert_eq!(failure("int();"), "Calls to int should have ONE arguments");

    assert_eq!(value("nil(1);"), Value::Bool(true));
    assert_eq!(value("nil({});"), Value::Bool(false));
    assert_eq!(value("nil($[]);"), Value::Bool(true));
    assert_eq!(failure("nil();"), "Calls to nil should have ONE arguments");
}

#[test]
fn a_built_in_function_goes_before_a_definition_of_its_name() {
    let mut r = Runtime::new();
    r.run("fn dim(x) 99;");
    assert_eq!(r.run("dim(\"ab\");"), integer(2));
}

#[test]
fn floats_in_programs() {
    assert_eq!(value("1.5 * 2;"), Value::Float(Float::parse("3.0", 363).unwrap()));
    assert_eq!(value(".5 + .25;"), Value::Float(Float::parse("0.75", 363).unwrap()));
    assert_eq!(value("1 / 4.0 < 0.3;"), Value::Bool(true));
    assert_eq!(failure("1/0.000000;"), "division by zero!");
}
