use minilang::ast::Forkop;
use minilang::error::{error, Console, Event};
use minilang::eval::fork;
use minilang::number::{Float, Integer};
use minilang::value::{Value, FLOATING_PRECISION};

fn integer(text: &str) -> Value {
    Value::Integer(Integer::parse(text).unwrap())
}

fn float(text: &str) -> Value {
    Value::Float(Float::parse(text, 363).unwrap())
}

fn string(text: &str) -> Value {
    Value::String(text.to_string())
}

fn list(items: Vec<Value>) -> Value {
    Value::List(items)
}

fn samples() -> Vec<Value> {
    vec![
        Value::Nil,
        list(vec![]),
        list(vec![integer("1"), string("a")]),
        string(""),
        string("abc"),
        float("0.0"),
        float("2.5"),
        integer("0"),
        integer("-7"),
        Value::Bool(true),
        Value::Bool(false),
    ]
}

fn rank(v: &Value) -> u8 {
    match v {
        Value::Nil => 0,
        Value::List(_) => 1,
        Value::String(_) => 2,
        Value::Float(_) => 3,
        Value::Integer(_) => 4,
        Value::Bool(_) => 5,
    }
}

/// The value and the diagnostics of an operation.
fn outcome(op: Forkop, a: Value, b: Value) -> (Value, Vec<String>) {
    let mut console = Console::new();
    let v = fork(op, a, b, &mut console);
    let messages = console
        .take()
        .into_iter()
        .map(|e| match e {
            Event::Diagnostic(m) => m,
            Event::Output(m) => panic!("unexpected output {}", m),
        })
        .collect();
    (v, messages)
}

fn value_of(op: Forkop, a: Value, b: Value) -> Value {
    let (v, messages) = outcome(op, a, b);
    assert!(messages.is_empty());
    v
}

fn failure_of(op: Forkop, a: Value, b: Value) -> String {
    let (v, mut messages) = outcome(op, a, b);
    assert_eq!(v, Value::Nil);
    assert_eq!(messages.len(), 1);
    messages.pop().unwrap()
}

#[test]
fn precision_is_363_bits() {
    assert_eq!(FLOATING_PRECISION, 363);
}

#[test]
fn error_reports_and_yields_nil() {
    let mut console = Console::new();
    assert_eq!(error("oops".to_string(), &mut console), Value::Nil);
    console.print("x".to_string());
    assert_eq!(console.events, vec![
        Event::Diagnostic("oops".to_string()),
        Event::Output("x".to_string()),
    ]);
    assert_eq!(console.take().len(), 2);
    assert!(console.events.is_empty());
}

#[test]
fn strongest_gives_two_values_of_one_kind() {
    for a in samples() {
        for b in samples() {
            let expected = rank(&a).min(rank(&b));
            let (x, y) = a.clone().strongest(b.clone());
            assert_eq!(rank(&x), rank(&y));
            assert_eq!(rank(&x), expected);
        }
    }
}

#[test]
fn strongest_examples() {
    assert_eq!(integer("1").strongest(Value::Nil), (Value::Nil, Value::Nil));
    assert_eq!(
        integer("1").strongest(list(vec![string("a")])),
        (list(vec![integer("1")]), list(vec![string("a")]))
    );
    assert_eq!(string("a").strongest(integer("17")), (string("a"), string("17")));
    assert_eq!(integer("2").strongest(float("1.5")), (float("2.0"), float("1.5")));
    assert_eq!(Value::Bool(true).strongest(integer("5")), (integer("1"), integer("5")));
    assert_eq!(
        Value::Bool(true).strongest(Value::Bool(false)),
        (Value::Bool(true), Value::Bool(false))
    );
}

#[test]
fn every_operator_gives_a_value_on_every_pair() {
    let ops = [
        Forkop::Gt,
        Forkop::Lt,
        Forkop::Lte,
        Forkop::Gte,
        Forkop::Eql,
        Forkop::Neq,
        Forkop::Add,
        Forkop::Sub,
        Forkop::Mul,
        Forkop::Div,
        Forkop::Pow,
        Forkop::Mod,
    ];
    for op in ops {
        for a in samples() {
            for b in samples() {
                let (v, messages) = outcome(op, a.clone(), b.clone());
                assert!(messages.len() <= 1);
                if messages.len() == 1 {
                    assert_eq!(v, Value::Nil);
                }
            }
        }
    }
}

#[test]
fn coercions() {
    assert_eq!(integer("3").as_float(), float("3.0"));
    assert_eq!(Value::Bool(true).as_float(), float("1.0"));
    assert_eq!(Value::Bool(false).as_float(), Value::Float(Value::fzero()));
    assert_eq!(string("1").as_float(), Value::Nil);
    assert_eq!(list(vec![]).as_float(), Value::Nil);
    assert_eq!(Value::Nil.as_float(), Value::Nil);

    assert_eq!(float("2.5").as_integer(), integer("2"));
    assert_eq!(float("3.5").as_integer(), integer("4"));
    assert_eq!(float("-0.75").as_integer(), integer("-1"));
    assert_eq!(Value::Bool(true).as_integer(), integer("1"));
    assert_eq!(Value::Bool(false).as_integer(), integer("0"));
    assert_eq!(string("1").as_integer(), Value::Nil);
    assert_eq!(Value::Nil.as_integer(), Value::Nil);

    assert_eq!(float("0.5").as_bool(), Value::Bool(true));
    assert_eq!(float("0.0").as_bool(), Value::Bool(false));
    assert_eq!(integer("-1").as_bool(), Value::Bool(false));
    assert_eq!(integer("1").as_bool(), Value::Bool(true));
    assert_eq!(string("").as_bool(), Value::Bool(false));
    assert_eq!(string("x").as_bool(), Value::Bool(true));
    assert_eq!(list(vec![]).as_bool(), Value::Bool(false));
    assert_eq!(list(vec![Value::Nil]).as_bool(), Value::Bool(true));
    assert_eq!(Value::Nil.as_bool(), Value::Nil);

    assert_eq!(float("1.5").as_str(), string("1.5"));
    assert_eq!(integer("-12").as_str(), string("-12"));
    assert_eq!(Value::Bool(true).as_str(), string("true"));
    assert_eq!(Value::Bool(false).as_str(), string("false"));
    assert_eq!(Value::Nil.as_str(), Value::Nil);
    assert_eq!(
        list(vec![
            integer("1"),
            float("1.5"),
            Value::Bool(true),
            string("a\"b"),
            list(vec![Value::Nil]),
            list(vec![]),
        ])
        .as_str(),
        string("[Integer(1), Float(1.5), Bool(true), String(\"a\\\"b\"), List([Nil]), List([])]")
    );
    assert_eq!(list(vec![]).as_str(), string("[]"));

    assert_eq!(integer("1").as_lst(), list(vec![integer("1")]));
    assert_eq!(list(vec![]).as_lst(), list(vec![]));
    assert_eq!(Value::Nil.as_lst(), Value::Nil);
}

#[test]
fn force_bool_reports_nil() {
    let mut console = Console::new();
    assert!(integer("1").force_bool(&mut console));
    assert!(!integer("0").force_bool(&mut console));
    assert!(console.events.is_empty());
    assert!(!Value::Nil.force_bool(&mut console));
    assert_eq!(console.events, vec![Event::Diagnostic(
        "Attempts to convert NILL to boolean".to_string()
    )]);
}

#[test]
fn kinds_are_told_apart() {
    assert!(Value::Nil.is_nill());
    assert!(!integer("0").is_nill());
    assert!(integer("0").is_integer());
    assert!(!float("0.0").is_integer());
    assert!(float("0.0").is_float());
    assert!(list(vec![]).is_vec());
    assert!(!string("").is_vec());
    assert!(integer("0").is_comparable());
    assert!(float("0.0").is_comparable());
    assert!(!Value::Bool(true).is_comparable());
    assert_eq!(integer("4").force_integer(), Some(Integer::from_usize(4)));
    assert_eq!(float("4.0").force_integer(), None);
    assert_eq!(float("0.5").force_float(), Some(Float::parse("0.5", 363).unwrap()));
    assert_eq!(integer("4").force_float(), None);
}

#[test]
fn comparison() {
    assert_eq!(integer("1").comp(integer("2")), Some(-1));
    assert_eq!(integer("2").comp(integer("2")), Some(0));
    assert_eq!(integer("3").comp(integer("2")), Some(1));
    assert_eq!(integer("1").comp(float("1.5")), Some(-1));
    assert_eq!(float("1.5").comp(integer("1")), Some(1));
    assert_eq!(float("2.0").comp(integer("2")), Some(0));
    assert_eq!(float("-0.5").comp(float("0.25")), Some(-1));
    assert_eq!(integer("1").comp(string("1")), None);
    assert_eq!(Value::Bool(true).comp(Value::Bool(true)), None);
    assert_eq!(Value::Nil.comp(integer("1")), None);

    assert_eq!(value_of(Forkop::Lt, integer("1"), integer("2")), Value::Bool(true));
    assert_eq!(value_of(Forkop::Gt, integer("1"), integer("2")), Value::Bool(false));
    assert_eq!(value_of(Forkop::Lte, integer("2"), integer("2")), Value::Bool(true));
    assert_eq!(value_of(Forkop::Gte, integer("1"), integer("2")), Value::Bool(false));
    assert_eq!(value_of(Forkop::Eql, float("2.0"), integer("2")), Value::Bool(true));
    assert_eq!(value_of(Forkop::Neq, float("2.0"), integer("2")), Value::Bool(false));
    assert_eq!(failure_of(Forkop::Eql, string("a"), string("a")), "Invalid Comparison!");
    assert_eq!(failure_of(Forkop::Lt, Value::Nil, integer("1")), "Invalid Comparison!");
}

#[test]
fn addition() {
    assert_eq!(value_of(Forkop::Add, integer("2"), integer("3")), integer("5"));
    assert_eq!(value_of(Forkop::Add, float("0.5"), integer("1")), float("1.5"));
    assert_eq!(value_of(Forkop::Add, string("ab"), string("cd")), string("abcd"));
    assert_eq!(value_of(Forkop::Add, string("é"), integer("1")), string("é1"));
    assert_eq!(value_of(Forkop::Add, integer("1"), Value::Bool(true)), integer("2"));
    assert_eq!(
        value_of(Forkop::Add, list(vec![integer("1")]), list(vec![integer("2")])),
        list(vec![integer("1"), integer("2")])
    );
    assert_eq!(
        value_of(Forkop::Add, list(vec![integer("1")]), string("x")),
        list(vec![integer("1"), string("x")])
    );
    assert_eq!(value_of(Forkop::Add, Value::Nil, integer("1")), Value::Nil);
    assert_eq!(
        failure_of(Forkop::Add, Value::Bool(true), Value::Bool(true)),
        "Cannot add bool to bool"
    );
}

#[test]
fn subtraction_and_multiplication() {
    assert_eq!(value_of(Forkop::Sub, integer("2"), integer("3")), integer("-1"));
    assert_eq!(value_of(Forkop::Sub, float("2.5"), float("0.5")), float("2.0"));
    assert_eq!(value_of(Forkop::Sub, Value::Nil, Value::Nil), Value::Nil);
    assert_eq!(failure_of(Forkop::Sub, Value::Bool(true), Value::Bool(true)), "Cannot sub bool from bool");
    assert_eq!(failure_of(Forkop::Sub, string("a"), integer("1")), "Cannot sub string");
    assert_eq!(failure_of(Forkop::Sub, list(vec![]), integer("1")), "Cannot sub list");

    assert_eq!(value_of(Forkop::Mul, integer("-4"), integer("3")), integer("-12"));
    assert_eq!(value_of(Forkop::Mul, float("1.5"), integer("2")), float("3.0"));
    assert_eq!(value_of(Forkop::Mul, Value::Nil, string("a")), Value::Nil);
    assert_eq!(failure_of(Forkop::Mul, Value::Bool(true), Value::Bool(true)), "Cannot mul bool and bool");
    assert_eq!(failure_of(Forkop::Mul, string("a"), integer("1")), "Cannot mul string");
    assert_eq!(failure_of(Forkop::Mul, list(vec![]), integer("1")), "Cannot mul list");
}

#[test]
fn division_and_remainder() {
    assert_eq!(value_of(Forkop::Div, integer("7"), integer("2")), integer("3"));
    assert_eq!(value_of(Forkop::Div, integer("-7"), integer("2")), integer("-3"));
    assert_eq!(value_of(Forkop::Div, float("1.0"), integer("4")), float("0.25"));
    assert_eq!(failure_of(Forkop::Div, integer("1"), integer("0")), "division by zero!");
    assert_eq!(failure_of(Forkop::Div, integer("1"), float("0.0")), "division by zero!");
    assert_eq!(failure_of(Forkop::Div, Value::Bool(true), Value::Bool(true)), "Cannot div bool and bool");
    assert_eq!(failure_of(Forkop::Div, string("a"), integer("1")), "Cannot div (by) string");
    assert_eq!(failure_of(Forkop::Div, list(vec![]), integer("1")), "Cannot div (by) list");
    assert_eq!(value_of(Forkop::Div, Value::Nil, integer("0")), Value::Nil);

    assert_eq!(value_of(Forkop::Mod, integer("7"), integer("2")), integer("1"));
    assert_eq!(value_of(Forkop::Mod, integer("-7"), integer("2")), integer("-1"));
    assert_eq!(value_of(Forkop::Mod, float("7.5"), integer("2")), float("1.5"));
    assert_eq!(value_of(Forkop::Mod, float("-7.5"), integer("2")), float("-1.5"));
    assert_eq!(failure_of(Forkop::Mod, integer("1"), integer("0")), "division by zero!");
    assert_eq!(failure_of(Forkop::Mod, float("1.0"), float("0.0")), "division by zero!");
    assert_eq!(failure_of(Forkop::Mod, Value::Bool(true), Value::Bool(true)), "Cannot mod bool and bool");
    assert_eq!(failure_of(Forkop::Mod, string("a"), integer("1")), "Cannot mod (by) string");
    assert_eq!(failure_of(Forkop::Mod, list(vec![]), integer("1")), "Cannot mod (by) list");
}

#[test]
fn powers() {
    assert_eq!(value_of(Forkop::Pow, integer("2"), integer("10")), integer("1024"));
    assert_eq!(value_of(Forkop::Pow, integer("-2"), integer("3")), integer("-8"));
    assert_eq!(value_of(Forkop::Pow, integer("5"), integer("0")), integer("1"));
    assert_eq!(value_of(Forkop::Pow, integer("1"), integer("4294967295")), integer("1"));
    assert_eq!(value_of(Forkop::Pow, float("1.5"), integer("2")), float("2.25"));
    assert_eq!(value_of(Forkop::Pow, float("4.0"), float("0.5")), float("2.0"));
    let too_big = "Exponent too big! (Or Small). To bypass this error first convert to float using float(arg).";
    assert_eq!(failure_of(Forkop::Pow, integer("2"), integer("-1")), too_big);
    assert_eq!(failure_of(Forkop::Pow, integer("2"), integer("4294967296")), too_big);
    assert_eq!(failure_of(Forkop::Pow, Value::Bool(true), Value::Bool(true)), "Cannot raise bool to power");
    assert_eq!(
        failure_of(Forkop::Pow, string("a"), integer("1")),
        "Cannot raise String to Value or raise Value to String"
    );
    assert_eq!(
        failure_of(Forkop::Pow, list(vec![]), integer("1")),
        "Cannot raise List to Value or raise Value to List"
    );
    assert_eq!(
        failure_of(Forkop::Pow, float("-2.0"), float("0.5")),
        "Float operation without a finite result"
    );
}

#[test]
fn infinities_end_in_a_diagnostic() {
    let inf = value_of(Forkop::Pow, float("0.0"), float("-1.0"));
    assert!(inf.is_float());
    assert_eq!(inf.clone().as_bool(), Value::Bool(true));
    assert_eq!(inf.clone().as_integer(), integer("0"));
    assert_eq!(inf.to_text(), "inf");
    assert_eq!(
        failure_of(Forkop::Add, inf.clone(), float("1.0")),
        "Float operation without a finite result"
    );
    assert_eq!(
        failure_of(Forkop::Div, float("1.0"), inf.clone()),
        "Float operation without a finite result"
    );
    assert_eq!(value_of(Forkop::Lt, float("1.0"), inf), Value::Bool(true));
}

#[test]
fn display() {
    assert_eq!(integer("-12").to_text(), "-12");
    assert_eq!(float("1.5").to_text(), "1.5");
    assert_eq!(float("0.1").to_text(), "0.1");
    assert_eq!(Value::Bool(true).to_text(), "true");
    assert_eq!(Value::Bool(false).to_text(), "false");
    assert_eq!(string("a b").to_text(), "a b");
    assert_eq!(Value::Nil.to_text(), "nil");
    assert_eq!(list(vec![]).to_text(), "[]");
    assert_eq!(
        list(vec![integer("1"), string("x"), list(vec![Value::Nil]), Value::Bool(false)]).to_text(),
        "[1,x,[nil,],false,]"
    );
    assert_eq!(integer("5").to_structure_text(), "Integer(5)");
    assert_eq!(string("a\nb").to_structure_text(), "String(\"a\\nb\")");
}

#[test]
fn a_copy_is_deep() {
    let source = list(vec![integer("1"), list(vec![string("x"), float("0.5")]), Value::Nil]);
    let copy = source.clone();
    assert_eq!(copy, source);
}
