use minilang::ast::{Ast, Forkop};
use minilang::environment::Environment;
use minilang::error::Event;
use minilang::number::Integer;
use minilang::run::Runtime;
use minilang::value::Value;

fn integer(n: usize) -> Value {
    Value::Integer(Integer::from_usize(n))
}

fn name(s: &str) -> String {
    s.to_string()
}

fn literal(n: usize) -> Ast {
    Ast::Literal(integer(n))
}

fn diagnostics(env: &mut Environment) -> Vec<String> {
    env.console
        .take()
        .into_iter()
        .filter_map(|e| match e {
            Event::Diagnostic(m) => Some(m),
            Event::Output(_) => None,
        })
        .collect()
}

fn outputs(env: &mut Environment) -> String {
    env.console
        .take()
        .into_iter()
        .filter_map(|e| match e {
            Event::Output(m) => Some(m),
            Event::Diagnostic(_) => None,
        })
        .collect()
}

#[test]
fn a_new_environment_has_the_global_frame() {
    let env = Environment::new();
    assert_eq!(env.envs.len(), 1);
    assert_eq!(env.wenv(), 0);
    assert_eq!(env.functions.len(), 0);
    assert!(env.console.events.is_empty());
    assert_eq!(env.fetch(&name("x")), None);
}

#[test]
fn frames_are_pushed_and_popped_and_the_global_frame_stays() {
    let mut env = Environment::new();
    env.push_env();
    env.push_env();
    assert_eq!(env.wenv(), 2);
    env.pop_env();
    assert_eq!(env.wenv(), 1);
    env.pop_env();
    env.pop_env();
    env.pop_env();
    assert_eq!(env.envs.len(), 1);
}

#[test]
fn reading_looks_at_the_top_frame_and_then_the_global_frame_only() {
    let mut env = Environment::new();
    env.push_val(&name("g"), integer(1));
    env.push_env();
    env.force_push(&name("middle"), integer(2));
    env.push_env();
    env.force_push(&name("top"), integer(3));
    assert_eq!(env.fetch(&name("top")), Some(integer(3)));
    assert_eq!(env.fetch(&name("g")), Some(integer(1)));
    assert_eq!(env.fetch(&name("middle")), None);
    assert_eq!(env.fetch(&name("nowhere")), None);
    env.force_push(&name("g"), integer(4));
    assert_eq!(env.fetch(&name("g")), Some(integer(4)));
    env.pop_env();
    assert_eq!(env.fetch(&name("g")), Some(integer(1)));
    assert_eq!(env.fetch(&name("middle")), Some(integer(2)));
}

#[test]
fn writing_prefers_a_global_binding() {
    let mut env = Environment::new();
    env.push_val(&name("g"), integer(1));
    env.push_env();
    env.push_val(&name("g"), integer(2));
    env.push_val(&name("local"), integer(3));
    assert!(env.envs[0].contains_key("g"));
    assert!(!env.envs[1].contains_key("g"));
    assert!(env.envs[1].contains_key("local"));
    assert!(!env.envs[0].contains_key("local"));
    env.pop_env();
    assert_eq!(env.fetch(&name("g")), Some(integer(2)));
    assert_eq!(env.fetch(&name("local")), None);
}

#[test]
fn a_later_definition_replaces_an_earlier_one() {
    let mut env = Environment::new();
    env.push_function(&name("f"), &vec![name("x")], &literal(1));
    env.push_function(&name("f"), &vec![], &literal(2));
    assert_eq!(env.functions.len(), 1);
    assert_eq!(env.eval_function(&name("f"), vec![], 10), integer(2));
}

#[test]
fn an_unknown_function_yields_nil_and_leaves_no_frame() {
    let mut env = Environment::new();
    assert_eq!(env.eval_function(&name("nope"), vec![integer(1)], 10), Value::Nil);
    assert_eq!(env.envs.len(), 1);
    assert!(env.console.events.is_empty());
}

#[test]
fn parameters_are_bound_to_the_arguments_in_source_order() {
    let mut env = Environment::new();
    let body = Ast::Fork {
        left: Box::new(Ast::Get(name("a"))),
        right: Box::new(Ast::Get(name("b"))),
        op: Forkop::Sub,
    };
    env.push_function(&name("f"), &vec![name("a"), name("b")], &body);
    // a call node holds the arguments with the last of the source first
    assert_eq!(env.eval_function(&name("f"), vec![integer(3), integer(10)], 10), integer(7));
    assert_eq!(env.envs.len(), 1);
}

#[test]
fn surplus_arguments_are_dropped_and_missing_ones_left_unbound() {
    let mut r = Runtime::new();
    r.run("fn first(a) a; fn second(a, b) b; b = 5;");
    assert_eq!(r.run("first(1, 2, 3);"), integer(1));
    assert_eq!(r.run("second(1);"), integer(5));
    r.take_events();
    r.run("fn third(a, b, c) c;");
    assert_eq!(r.run("third(1);"), Value::Nil);
    assert_eq!(r.take_events(), vec![Event::Diagnostic("Variable: c Not Found".to_string())]);
}

#[test]
fn a_variable_of_a_call_is_gone_after_it() {
    let mut r = Runtime::new();
    r.run("fn f(p) [ local = p + 1; local; ];");
    assert_eq!(r.run("f(1);"), integer(2));
    assert_eq!(r.run("local;"), Value::Nil);
    assert_eq!(r.run("p;"), Value::Nil);
    assert_eq!(r.take_events(), vec![
        Event::Diagnostic("Variable: local Not Found".to_string()),
        Event::Diagnostic("Variable: p Not Found".to_string()),
    ]);
}

#[test]
fn a_call_may_change_a_global_variable() {
    let mut r = Runtime::new();
    r.run("g = 1; fn f() [g = g + 1;];");
    r.run("f(); f();");
    assert_eq!(r.run("g;"), integer(3));
}

#[test]
fn a_function_body_reads_the_global_value() {
    let mut r = Runtime::new();
    r.run("x = 41; fn f(y) (x + y);");
    assert_eq!(r.run("f(1);"), integer(42));
    r.run("fn g(x) x;");
    assert_eq!(r.run("g(7);"), integer(7));
    assert_eq!(r.run("x;"), integer(41));
}

#[test]
fn a_nested_call_does_not_see_the_caller_frame() {
    let mut r = Runtime::new();
    r.run("fn inner() hidden; fn outer(hidden) inner();");
    assert_eq!(r.run("outer(1);"), Value::Nil);
    assert_eq!(r.take_events(), vec![Event::Diagnostic("Variable: hidden Not Found".to_string())]);
}

#[test]
fn list_items_are_evaluated_from_the_first_to_the_last() {
    let mut r = Runtime::new();
    assert_eq!(
        r.run("n = 0; $[n = n + 1, n, [n = n * 10; n;], n + 1];"),
        Value::List(vec![Value::Nil, integer(1), integer(10), integer(11)])
    );
}

#[test]
fn call_arguments_are_evaluated_from_the_last_to_the_first() {
    let mut r = Runtime::new();
    r.run("fn pair(a, b) $[a, b];");
    assert_eq!(
        r.run("pair([disp(1); 1;], [disp(2); 2;]);"),
        Value::List(vec![integer(1), integer(2)])
    );
    assert_eq!(r.take_events(), vec![
        Event::Output("2".to_string()),
        Event::Output("1".to_string()),
    ]);
}

#[test]
fn recursion() {
    let mut r = Runtime::new();
    r.run("fn fact(n) { n <= 1 : 1, n * fact(n - 1) };");
    assert_eq!(
        r.run("fact(25);"),
        Value::Integer(Integer::parse("15511210043330985984000000").unwrap())
    );
}

#[test]
fn conditions() {
    let mut r = Runtime::new();
    assert_eq!(r.run("{1 : 10, 20};"), integer(10));
    assert_eq!(r.run("{0 : 10, 20};"), integer(20));
    assert_eq!(r.run("{0 : 10};"), Value::Nil);
    assert_eq!(r.run("{\"\" : 10, $[0] : 30, 40};"), integer(30));
    assert_eq!(r.run("{};"), Value::Nil);
    assert!(r.take_events().is_empty());
    assert_eq!(r.run("{missing : 10, 20};"), integer(20));
    assert_eq!(r.take_events(), vec![
        Event::Diagnostic("Variable: missing Not Found".to_string()),
        Event::Diagnostic("Attempts to convert NILL to boolean".to_string()),
    ]);
}

#[test]
fn a_loop_yields_its_last_body_value() {
    let mut r = Runtime::new();
    assert_eq!(r.run("i = 0; while i < 3 : [ i = i + 1; i * 2; ];"), integer(6));
    assert_eq!(r.run("while 0 : 1;"), Value::Nil);
    assert_eq!(r.run("[];"), Value::Nil);
    assert_eq!(r.run("[1; 2;];"), integer(2));
    assert_eq!(r.run("x = 3;"), Value::Nil);
    assert_eq!(r.run("fn f() 1;"), Value::Nil);
}

#[test]
fn the_budget_ends_a_loop_that_does_not_end() {
    let mut r = Runtime::with_budget(100);
    assert_eq!(r.run("n = 0; while 1 : [n = n + 1;];"), Value::Nil);
    assert_eq!(r.take_events(), vec![Event::Diagnostic("Evaluation budget exhausted".to_string())]);
    assert_eq!(r.run("n;"), integer(100));
}

#[test]
fn the_budget_ends_a_recursion_that_does_not_end() {
    let mut r = Runtime::with_budget(50);
    r.run("depth = 0; fn down() [ depth = depth + 1; down(); ];");
    assert_eq!(r.run("down();"), Value::Nil);
    assert_eq!(r.take_events(), vec![Event::Diagnostic("Evaluation budget exhausted".to_string())]);
    assert_eq!(r.run("depth;"), integer(50));
    let mut none = Runtime::with_budget(0);
    none.run("fn f() 1;");
    assert_eq!(none.run("f();"), Value::Nil);
    assert_eq!(none.run("1 + 2;"), integer(3));
    assert_eq!(none.run("disp(1);"), Value::Nil);
}

#[test]
fn texts_that_are_no_programs_are_reported() {
    let mut r = Runtime::new();
    r.run("x = 1;");
    assert_eq!(r.run("x = 2; ?"), Value::Nil);
    assert_eq!(r.run("x = 3; x = "), Value::Nil);
    assert_eq!(r.take_events(), vec![
        Event::Diagnostic("Invalid Syntax!".to_string()),
        Event::Diagnostic("Invalid Structure of Program!".to_string()),
    ]);
    assert_eq!(r.run("x;"), integer(1));
    assert_eq!(r.run(""), Value::Nil);
}

#[test]
fn evaluation_against_an_environment() {
    let mut env = Environment::new();
    let program = Ast::ExpressionList(vec![
        Ast::Assign { name: name("a"), value: Box::new(literal(2)) },
        Ast::Fork {
            left: Box::new(Ast::Get(name("a"))),
            right: Box::new(literal(5)),
            op: Forkop::Pow,
        },
    ]);
    assert_eq!(program.eval(&mut env, 10), integer(32));
    assert_eq!(Ast::null().eval(&mut env, 0), Value::Nil);
    assert_eq!(*literal(1).boxed(), literal(1));
    assert_eq!(Ast::Get(name("zz")).eval(&mut env, 0), Value::Nil);
    assert_eq!(diagnostics(&mut env), vec!["Variable: zz Not Found".to_string()]);
    let call = Ast::Call { name: name("displn"), with: vec![literal(2), literal(1)] };
    assert_eq!(call.eval(&mut env, 0), Value::Nil);
    assert_eq!(outputs(&mut env), "1\n2\n");
}
