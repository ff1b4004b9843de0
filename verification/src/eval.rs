//! The evaluator: the meaning of a syntax tree as a function of the
//! environment, and the code that computes it.
//!
//! Evaluation is bounded by a budget. Every turn of a loop and every entry
//! into the body of a user-defined function passes on one unit less than it
//! was given; with nothing left, a loop or a call reports a diagnostic and
//! yields `Nil`.

use vstd::prelude::*;
use vstd::arithmetic::div_mod::lemma_small_mod;
use vstd::utf8::encode_utf8;
use crate::ast::{ast_view, asts_view, clone_names, lemma_asts_view, names_view, Ast, AstV, Forkop};
use crate::environment::{EnvV, Environment};
use crate::error::{error, Console};
use crate::number::Integer;
use crate::rev;
use crate::value::{
    add_spec, comp_spec, div_spec, list_view, lemma_list_view, mod_spec, mul_spec, pow_spec,
    reports, sub_spec, Outcome, Value, ValueV,
};

verus! {

/// The outcome of a comparison whose verdict on the sign of `a - b` is `test`.
pub open spec fn compare_spec(a: ValueV, b: ValueV, test: spec_fn(i8) -> bool) -> Outcome {
    match comp_spec(a, b) {
        Some(x) => Ok(ValueV::Bool(test(x))),
        None => Err("Invalid Comparison!"@),
    }
}

/// The outcome of a binary operator applied to two values.
pub open spec fn fork_spec(op: Forkop, a: ValueV, b: ValueV) -> Outcome {
    match op {
        Forkop::Gt => compare_spec(a, b, |x: i8| x > 0),
        Forkop::Lt => compare_spec(a, b, |x: i8| x < 0),
        Forkop::Lte => compare_spec(a, b, |x: i8| x <= 0),
        Forkop::Gte => compare_spec(a, b, |x: i8| x >= 0),
        Forkop::Eql => compare_spec(a, b, |x: i8| x == 0),
        Forkop::Neq => compare_spec(a, b, |x: i8| x != 0),
        Forkop::Add => add_spec(a, b),
        Forkop::Sub => sub_spec(a, b),
        Forkop::Mul => mul_spec(a, b),
        Forkop::Div => div_spec(a, b),
        Forkop::Pow => pow_spec(a, b),
        Forkop::Mod => mod_spec(a, b),
    }
}

/// The value and the environment that an outcome leaves.
pub open spec fn settle(outcome: Outcome, env: EnvV) -> (ValueV, EnvV) {
    match outcome {
        Ok(v) => (v, env),
        Err(m) => (ValueV::Nil, env.report(m)),
    }
}

/// A failure: `Nil`, and the diagnostic reported.
pub open spec fn fail(env: EnvV, msg: Seq<char>) -> (ValueV, EnvV) {
    (ValueV::Nil, env.report(msg))
}

/// The truth of a value as a condition, and the environment after the test:
/// `Nil` counts as false and is reported.
pub open spec fn force_bool_spec(v: ValueV, env: EnvV) -> (bool, EnvV) {
    (
        v.as_bool() == ValueV::Bool(true),
        if v is Nil {
            env.report("Attempts to convert NILL to boolean"@)
        } else {
            env
        },
    )
}

/// The diagnostic of a loop or a call that has no budget left.
pub open spec fn budget_message() -> Seq<char> {
    "Evaluation budget exhausted"@
}

/// The environment after printing each of `args` in turn, with a line break
/// after each where `newline` holds.
pub open spec fn print_all(env: EnvV, args: Seq<ValueV>, newline: bool) -> EnvV
    decreases args.len(),
{
    if args.len() == 0 {
        env
    } else {
        print_all(env, args.drop_last(), newline).print(
            if newline {
                args.last().display() + "\n"@
            } else {
                args.last().display()
            },
        )
    }
}

/// The environment with the first `n` parameters bound, in turn, to the first
/// `n` arguments in the top frame.
pub open spec fn bind_spec(env: EnvV, params: Seq<Seq<char>>, args: Seq<ValueV>, n: nat) -> EnvV
    decreases n,
{
    if n == 0 {
        env
    } else {
        bind_spec(env, params, args, (n - 1) as nat).force_push(params[n - 1], args[n - 1])
    }
}

/// The smaller of two lengths.
pub open spec fn shorter(a: nat, b: nat) -> nat {
    if a <= b {
        a
    } else {
        b
    }
}

/// Whether `name` is the name of a built-in function.
pub open spec fn is_intrinsic(name: Seq<char>) -> bool {
    name == "disp"@ || name == "displn"@ || name == "pop"@ || name == "get"@ || name == "dim"@
        || name == "vec"@ || name == "str"@ || name == "int"@ || name == "nil"@
}

/// The diagnostic of a call of `pop` or `get` that is not given a list and a
/// number.
pub open spec fn index_message(name: Seq<char>) -> Seq<char> {
    "Calls to "@ + name + " should have 2 arguments : a vector followed by a number"@
}

/// The diagnostic of a call of a built-in function of one argument that is
/// given another number of them.
pub open spec fn arity_message(name: Seq<char>) -> Seq<char> {
    "Calls to "@ + name + " should have ONE arguments"@
}

/// What `pop` and `get` come to, on the arguments in source order: a list
/// and an index, which is taken as an integer and counts from zero. An index
/// that is negative or not below the length of the list is out of bounds.
pub open spec fn index_spec(name: Seq<char>, args: Seq<ValueV>, env: EnvV) -> (ValueV, EnvV) {
    if args.len() != 2 {
        fail(env, index_message(name))
    } else {
        let t = args[1].as_integer();
        if !(args[0] is List) || !(t is Integer) {
            fail(env, index_message(name))
        } else {
            let l = args[0]->List_0;
            let index = t->Integer_0;
            if 0 <= index < l.len() {
                if name == "pop"@ {
                    (ValueV::List(l.remove(index)), env)
                } else {
                    (l[index], env)
                }
            } else {
                fail(env, name + " called with out of bounds index"@)
            }
        }
    }
}

/// What a built-in function of one argument makes of it.
pub open spec fn unary_spec(name: Seq<char>, x: ValueV) -> ValueV {
    if name == "dim"@ {
        match x {
            ValueV::String(s) => ValueV::Integer(encode_utf8(s).len() as int),
            ValueV::List(l) => ValueV::Integer(l.len() as int),
            _ => ValueV::Integer(0),
        }
    } else if name == "vec"@ {
        x.as_lst()
    } else if name == "str"@ {
        x.as_str()
    } else if name == "int"@ {
        x.as_integer()
    } else {
        ValueV::Bool(!(x is Nil))
    }
}

/// What a call of the built-in function `name` comes to, on the arguments in
/// source order.
pub open spec fn intrinsic_spec(name: Seq<char>, args: Seq<ValueV>, env: EnvV) -> (ValueV, EnvV) {
    if name == "disp"@ {
        (ValueV::Nil, print_all(env, args, false))
    } else if name == "displn"@ {
        (ValueV::Nil, print_all(env, args, true))
    } else if name == "pop"@ || name == "get"@ {
        index_spec(name, args, env)
    } else if args.len() != 1 {
        fail(env, arity_message(name))
    } else {
        (unary_spec(name, args[0]), env)
    }
}

/// The value of a node and the environment after its evaluation.
pub open spec fn eval_spec(ast: AstV, env: EnvV, fuel: nat) -> (ValueV, EnvV)
    decreases fuel, 1nat, ast,
{
    match ast {
        AstV::Literal(l) => (l, env),
        AstV::Get(name) => match env.fetch(name) {
            Some(x) => (x, env),
            None => fail(env, "Variable: "@ + name + " Not Found"@),
        },
        AstV::VecLiteral(items) => {
            let (vals, env1) = eval_list_spec(items, env, fuel);
            (ValueV::List(vals), env1)
        },
        AstV::FunDef { name, args, body } => (ValueV::Nil, env.push_function(name, args, *body)),
        AstV::Assign { name, value } => {
            let (v, env1) = eval_spec(*value, env, fuel);
            (ValueV::Nil, env1.push_val(name, v))
        },
        AstV::While { cond, body } => while_spec(*cond, *body, env, fuel, ValueV::Nil),
        AstV::ExpressionList(items) => {
            let (vals, env1) = eval_list_spec(items, env, fuel);
            (last_or_nil(vals), env1)
        },
        AstV::Call { name, with } => {
            let (vals, env1) = eval_list_spec(with, env, fuel);
            eval_function_spec(name, vals, env1, fuel)
        },
        AstV::If { if_, then_, else_ } => {
            let (c, env1) = eval_spec(*if_, env, fuel);
            let (b, env2) = force_bool_spec(c, env1);
            if b {
                eval_spec(*then_, env2, fuel)
            } else {
                match else_ {
                    Some(e) => eval_spec(*e, env2, fuel),
                    None => (ValueV::Nil, env2),
                }
            }
        },
        AstV::Fork { left, right, op } => {
            let (l, env1) = eval_spec(*left, env, fuel);
            let (r, env2) = eval_spec(*right, env1, fuel);
            settle(fork_spec(op, l, r), env2)
        },
    }
}

/// The last of a list of values, `Nil` for the empty list.
pub open spec fn last_or_nil(vals: Seq<ValueV>) -> ValueV {
    if vals.len() == 0 {
        ValueV::Nil
    } else {
        vals.last()
    }
}

/// The values of a list of nodes evaluated from the first to the last, and
/// the environment after them.
pub open spec fn eval_list_spec(items: Seq<AstV>, env: EnvV, fuel: nat) -> (Seq<ValueV>, EnvV)
    decreases fuel, 1nat, items,
{
    if items.len() == 0 {
        (Seq::<ValueV>::empty(), env)
    } else {
        let (vals, env1) = eval_list_spec(items.drop_last(), env, fuel);
        let (v, env2) = eval_spec(items.last(), env1, fuel);
        (vals.push(v), env2)
    }
}

/// The value of a loop that has come to `last` so far: with budget left, the
/// condition is evaluated and, where it holds, the body, and the loop goes on
/// with one unit less.
pub open spec fn while_spec(cond: AstV, body: AstV, env: EnvV, fuel: nat, last: ValueV) -> (
    ValueV,
    EnvV,
)
    decreases fuel, 0nat,
{
    if fuel == 0 {
        fail(env, budget_message())
    } else {
        let (c, env1) = eval_spec(cond, env, (fuel - 1) as nat);
        let (b, env2) = force_bool_spec(c, env1);
        if !b {
            (last, env2)
        } else {
            let (v, env3) = eval_spec(body, env2, (fuel - 1) as nat);
            while_spec(cond, body, env3, (fuel - 1) as nat, v)
        }
    }
}

/// What the call of `name` comes to, on the evaluated arguments as a call
/// node holds them: the last of the source first. A built-in function goes
/// first; an unknown name yields `Nil`; a user-defined function gets a fresh
/// frame with its parameters bound, its body is evaluated with one unit of
/// budget less, and the frame is taken off again.
pub open spec fn eval_function_spec(name: Seq<char>, args: Seq<ValueV>, env: EnvV, fuel: nat) -> (
    ValueV,
    EnvV,
)
    decreases fuel, 0nat,
{
    let args = args.reverse();
    if is_intrinsic(name) {
        intrinsic_spec(name, args, env)
    } else if !env.functions.contains_key(name) {
        (ValueV::Nil, env)
    } else if fuel == 0 {
        fail(env, budget_message())
    } else {
        let (params, body) = env.functions[name];
        let env1 = bind_spec(env.push_env(), params, args, shorter(params.len(), args.len()));
        let (v, env2) = eval_spec(body, env1, (fuel - 1) as nat);
        (v, env2.pop_env())
    }
}

/// Applies a binary operator to two values. Every pair of values and every
/// operator gives a value; a pair that the operator does not take gives `Nil`
/// and a diagnostic.
pub fn fork(op: Forkop, left: Value, right: Value, console: &mut Console) -> (r: Value)
    ensures
        reports(fork_spec(op, left@, right@), r@, old(console)@, final(console)@),
{
    match op {
        Forkop::Gt => match left.comp(right) {
            Some(x) => Value::Bool(x > 0),
            None => error(String::from_str("Invalid Comparison!"), console),
        },
        Forkop::Lt => match left.comp(right) {
            Some(x) => Value::Bool(x < 0),
            None => error(String::from_str("Invalid Comparison!"), console),
        },
        Forkop::Lte => match left.comp(right) {
            Some(x) => Value::Bool(x <= 0),
            None => error(String::from_str("Invalid Comparison!"), console),
        },
        Forkop::Gte => match left.comp(right) {
            Some(x) => Value::Bool(x >= 0),
            None => error(String::from_str("Invalid Comparison!"), console),
        },
        Forkop::Eql => match left.comp(right) {
            Some(x) => Value::Bool(x == 0),
            None => error(String::from_str("Invalid Comparison!"), console),
        },
        Forkop::Neq => match left.comp(right) {
            Some(x) => Value::Bool(x != 0),
            None => error(String::from_str("Invalid Comparison!"), console),
        },
        Forkop::Add => left.add(right, console),
        Forkop::Sub => left.sub(right, console),
        Forkop::Mul => left.mul(right, console),
        Forkop::Div => left.div(right, console),
        Forkop::Pow => left.pow(right, console),
        Forkop::Mod => left.mod_(right, console),
    }
}

/// Whether a name is the given literal.
fn name_is(name: &String, literal: &str) -> (r: bool)
    ensures
        r == (name@ == literal@),
{
    let other = String::from_str(literal);
    *name == other
}

/// Whether `name` is the name of a built-in function.
fn is_intrinsic_name(name: &String) -> (r: bool)
    ensures
        r == is_intrinsic(name@),
{
    name_is(name, "disp") || name_is(name, "displn") || name_is(name, "pop")
        || name_is(name, "get") || name_is(name, "dim") || name_is(name, "vec")
        || name_is(name, "str") || name_is(name, "int") || name_is(name, "nil")
}

/// Evaluates the nodes of a list from the first to the last and collects
/// their values.
pub fn eval_list(items: &Vec<Ast>, env: &mut Environment, fuel: u64) -> (r: Vec<Value>)
    requires
        old(env).wf(),
    ensures
        final(env).wf(),
        (list_view(r@), final(env)@) == eval_list_spec(asts_view(items@), old(env)@, fuel as nat),
    decreases fuel, 1nat, items,
{
    let mut out: Vec<Value> = Vec::with_capacity(items.len());
    let mut i: usize = 0;
    proof {
        assert(asts_view(items@).take(0) =~= Seq::<AstV>::empty());
        assert(list_view(out@) =~= Seq::<ValueV>::empty());
    }
    while i < items.len()
        invariant
            i <= items.len(),
            env.wf(),
            (list_view(out@), env@) == eval_list_spec(
                asts_view(items@).take(i as int),
                old(env)@,
                fuel as nat,
            ),
        decreases items.len() - i,
    {
        let ghost before = list_view(out@);
        let v = items[i].eval(env, fuel);
        out.push(v);
        proof {
            lemma_asts_view(items@);
            let next = asts_view(items@).take(i + 1);
            assert(next.drop_last() =~= asts_view(items@).take(i as int));
            assert(next.last() == items@[i as int]@);
            assert(list_view(out@) =~= before.push(v@));
        }
        i += 1;
    }
    proof {
        assert(asts_view(items@).take(items@.len() as int) =~= asts_view(items@));
    }
    out
}

/// Evaluates the nodes of a list from the first to the last and keeps the
/// value of the last.
pub fn eval_last(items: &Vec<Ast>, env: &mut Environment, fuel: u64) -> (r: Value)
    requires
        old(env).wf(),
    ensures
        final(env).wf(),
        r@ == last_or_nil(eval_list_spec(asts_view(items@), old(env)@, fuel as nat).0),
        final(env)@ == eval_list_spec(asts_view(items@), old(env)@, fuel as nat).1,
    decreases fuel, 1nat, items,
{
    let mut v = Value::Nil;
    let mut i: usize = 0;
    proof {
        assert(asts_view(items@).take(0) =~= Seq::<AstV>::empty());
    }
    while i < items.len()
        invariant
            i <= items.len(),
            env.wf(),
            v@ == last_or_nil(
                eval_list_spec(asts_view(items@).take(i as int), old(env)@, fuel as nat).0,
            ),
            env@ == eval_list_spec(asts_view(items@).take(i as int), old(env)@, fuel as nat).1,
        decreases items.len() - i,
    {
        v = items[i].eval(env, fuel);
        proof {
            lemma_asts_view(items@);
            let next = asts_view(items@).take(i + 1);
            assert(next.drop_last() =~= asts_view(items@).take(i as int));
            assert(next.last() == items@[i as int]@);
        }
        i += 1;
    }
    proof {
        assert(asts_view(items@).take(items@.len() as int) =~= asts_view(items@));
    }
    v
}

impl Ast {
    /// Evaluates the node in the environment, with the given budget.
    pub fn eval(&self, env: &mut Environment, fuel: u64) -> (r: Value)
        requires
            old(env).wf(),
        ensures
            final(env).wf(),
            (r@, final(env)@) == eval_spec(self@, old(env)@, fuel as nat),
        decreases fuel, 1nat, self,
    {
        match self {
            Ast::Literal(l) => l.clone(),
            Ast::Get(g) => match env.fetch(g) {
                Some(x) => x,
                None => {
                    let mut msg = String::from_str("Variable: ");
                    msg.append(g.as_str());
                    msg.append(" Not Found");
                    error(msg, &mut env.console)
                },
            },
            Ast::VecLiteral(v) => {
                let ret = eval_list(v, env, fuel);
                proof {
                    lemma_list_view(ret);
                }
                Value::List(ret)
            },
            Ast::FunDef { name, args, body } => {
                env.push_function(name, args, body);
                Value::Nil
            },
            Ast::Assign { name, value } => {
                let e = value.eval(env, fuel);
                env.push_val(name, e);
                Value::Nil
            },
            Ast::While { cond, body } => {
                let mut v = Value::Nil;
                let mut k: u64 = fuel;
                let ghost start = env@;
                let ghost total = while_spec(
                    ast_view(**cond),
                    ast_view(**body),
                    start,
                    fuel as nat,
                    ValueV::Nil,
                );
                loop
                    invariant_except_break
                        while_spec(ast_view(**cond), ast_view(**body), env@, k as nat, v@)
                            == total,
                    invariant
                        env.wf(),
                        k <= fuel,
                    ensures
                        env.wf(),
                        (v@, env@) == total,
                    decreases k,
                {
                    if k == 0 {
                        v = error(String::from_str("Evaluation budget exhausted"), &mut env.console);
                        break ;
                    }
                    k = k - 1;
                    let c = cond.eval(env, k);
                    let b = c.force_bool(&mut env.console);
                    if !b {
                        break ;
                    }
                    v = body.eval(env, k);
                }
                v
            },
            Ast::ExpressionList(e) => eval_last(e, env, fuel),
            Ast::Call { name, with } => {
                let evals = eval_list(with, env, fuel);
                env.eval_function(name, evals, fuel)
            },
            Ast::If { if_, then_, else_ } => {
                let c = if_.eval(env, fuel);
                if c.force_bool(&mut env.console) {
                    return then_.eval(env, fuel);
                }
                match else_ {
                    Some(x) => x.eval(env, fuel),
                    None => Value::Nil,
                }
            },
            Ast::Fork { left, right, op } => {
                let left = left.eval(env, fuel);
                let right = right.eval(env, fuel);
                fork(*op, left, right, &mut env.console)
            },
        }
    }
}

impl Environment {
    /// Prints each of the values in turn, with a line break after each where
    /// `newline` holds.
    fn print_values(&mut self, args: &Vec<Value>, newline: bool)
        ensures
            final(self)@ == print_all(old(self)@, list_view(args@), newline),
            final(self).envs == old(self).envs,
    {
        let mut i: usize = 0;
        proof {
            assert(list_view(args@).take(0) =~= Seq::<ValueV>::empty());
        }
        while i < args.len()
            invariant
                i <= args.len(),
                self.envs == old(self).envs,
                self@ == print_all(old(self)@, list_view(args@).take(i as int), newline),
            decreases args.len() - i,
        {
            let mut text = args[i].to_text();
            if newline {
                text.append("\n");
            }
            self.console.print(text);
            proof {
                let next = list_view(args@).take(i + 1);
                assert(next.drop_last() =~= list_view(args@).take(i as int));
                assert(next.last() == args@[i as int]@);
            }
            i += 1;
        }
        proof {
            assert(list_view(args@).take(args@.len() as int) =~= list_view(args@));
        }
    }

    /// `pop` and `get`: the list without the item at an index, and the item
    /// at an index.
    fn index_intrinsic(&mut self, name: &String, args: Vec<Value>) -> (r: Value)
        requires
            name@ == "pop"@ || name@ == "get"@,
        ensures
            (r@, final(self)@) == index_spec(name@, list_view(args@), old(self)@),
            final(self).envs == old(self).envs,
    {
        let mut args = args;
        let mut usage = String::from_str("Calls to ");
        usage.append(name.as_str());
        usage.append(" should have 2 arguments : a vector followed by a number");
        if args.len() != 2 {
            return error(usage, &mut self.console);
        }
        let is_pop = name_is(name, "pop");
        let second = args.pop().unwrap();
        let first = args.pop().unwrap();
        let t = second.as_integer();
        if !first.is_vec() || !t.is_integer() {
            return error(usage, &mut self.console);
        }
        match (first, t) {
            (Value::List(l), Value::Integer(i)) => {
                let mut l = l;
                proof {
                    lemma_list_view(l);
                }
                if !i.is_negative() && i.less_than(&Integer::from_usize(l.len())) {
                    let index = i.to_usize_wrapping();
                    proof {
                        lemma_small_mod(i@ as nat, (usize::MAX + 1) as nat);
                    }
                    if is_pop {
                        let ghost before = l@;
                        l.remove(index);
                        proof {
                            lemma_list_view(l);
                            assert(list_view(l@) =~= list_view(before).remove(index as int));
                        }
                        Value::List(l)
                    } else {
                        l[index].clone()
                    }
                } else {
                    let mut msg = name.clone();
                    msg.append(" called with out of bounds index");
                    error(msg, &mut self.console)
                }
            },
            _ => Value::Nil,
        }
    }

    /// The built-in functions, on the arguments in source order.
    fn intrinsic(&mut self, name: &String, args: Vec<Value>) -> (r: Value)
        requires
            is_intrinsic(name@),
        ensures
            (r@, final(self)@) == intrinsic_spec(name@, list_view(args@), old(self)@),
            final(self).envs == old(self).envs,
    {
        if name_is(name, "disp") {
            self.print_values(&args, false);
            return Value::Nil;
        }
        if name_is(name, "displn") {
            self.print_values(&args, true);
            return Value::Nil;
        }
        if name_is(name, "pop") || name_is(name, "get") {
            return self.index_intrinsic(name, args);
        }
        let mut args = args;
        if args.len() != 1 {
            let mut msg = String::from_str("Calls to ");
            msg.append(name.as_str());
            msg.append(" should have ONE arguments");
            return error(msg, &mut self.console);
        }
        let x = args.pop().unwrap();
        if name_is(name, "dim") {
            match x {
                Value::String(s) => Value::Integer(Integer::from_usize(s.as_str().as_bytes().len())),
                Value::List(l) => {
                    proof {
                        lemma_list_view(l);
                    }
                    Value::Integer(Integer::from_usize(l.len()))
                },
                _ => Value::Integer(Integer::zero()),
            }
        } else if name_is(name, "vec") {
            x.as_lst()
        } else if name_is(name, "str") {
            x.as_str()
        } else if name_is(name, "int") {
            x.as_integer()
        } else {
            match x {
                Value::Nil => Value::Bool(false),
                _ => Value::Bool(true),
            }
        }
    }

    /// Calls the function `name` on the evaluated arguments as a call node
    /// holds them, the last of the source first.
    pub fn eval_function(&mut self, name: &String, args: Vec<Value>, fuel: u64) -> (r: Value)
        requires
            old(self).wf(),
        ensures
            final(self).wf(),
            (r@, final(self)@) == eval_function_spec(
                name@,
                list_view(args@),
                old(self)@,
                fuel as nat,
            ),
        decreases fuel, 0nat,
    {
        let ghost given = list_view(args@).reverse();
        if is_intrinsic_name(name) {
            let ghost held = args@;
            let ordered = rev(args);
            proof {
                assert(list_view(ordered@) =~= list_view(held).reverse());
            }
            return self.intrinsic(name, ordered);
        }
        let (names, body) = match self.functions.get(name.as_str()) {
            Some(f) => (clone_names(&f.0), f.1.clone()),
            None => {
                return Value::Nil;
            },
        };
        if fuel == 0 {
            return error(String::from_str("Evaluation budget exhausted"), &mut self.console);
        }
        let ghost params = names_view(names@);
        self.push_env();
        let ghost pushed = self@;
        let mut args = args;
        let total = args.len();
        let count = if names.len() <= total {
            names.len()
        } else {
            total
        };
        let mut i: usize = 0;
        while i < count
            invariant
                i <= count,
                count <= names.len(),
                count <= total,
                self.wf(),
                args@.len() == total - i,
                given.len() == total,
                params == names_view(names@),
                forall|j: int| 0 <= j < total - i ==> (#[trigger] args@[j])@ == given[total - 1 - j],
                self@ == bind_spec(pushed, params, given, i as nat),
            decreases count - i,
        {
            let v = args.pop().unwrap();
            self.force_push(&names[i], v);
            i += 1;
        }
        let ret = body.eval(self, fuel - 1);
        self.pop_env();
        ret
    }
}

} // verus!
