//! Laws of the interpreter: what holds of every evaluation.

use vstd::prelude::*;
use crate::ast::AstV;
use crate::environment::EnvV;
use crate::error::EventV;
use crate::eval::{
    bind_spec, eval_function_spec, eval_list_spec, eval_spec, force_bool_spec, intrinsic_spec,
    is_intrinsic, print_all, shorter, while_spec,
};
use crate::value::{add_spec, div_spec, mod_spec, mul_spec, pow_spec, sub_spec, ValueV};

verus! {

/// The two results of `strongest` are of one kind.
pub proof fn law_strongest_same_kind(a: ValueV, b: ValueV)
    ensures
        a.strongest(b).0.strength() == a.strongest(b).1.strength(),
{
}

/// Coercing to the stronger of two kinds never fails: `strongest` gives
/// `Nil` only where one of the two values is `Nil`.
pub proof fn law_strongest_nil(a: ValueV, b: ValueV)
    ensures
        a.strongest(b).0 is Nil <==> (a is Nil || b is Nil),
        a.strongest(b).1 is Nil <==> (a is Nil || b is Nil),
{
}

/// `Nil` is infectious: arithmetic on a pair with `Nil` in it gives `Nil`
/// and no diagnostic.
pub proof fn law_nil_is_infectious(a: ValueV, b: ValueV)
    requires
        a is Nil || b is Nil,
    ensures
        add_spec(a, b) == Ok::<ValueV, Seq<char>>(ValueV::Nil),
        sub_spec(a, b) == Ok::<ValueV, Seq<char>>(ValueV::Nil),
        mul_spec(a, b) == Ok::<ValueV, Seq<char>>(ValueV::Nil),
        div_spec(a, b) == Ok::<ValueV, Seq<char>>(ValueV::Nil),
        pow_spec(a, b) == Ok::<ValueV, Seq<char>>(ValueV::Nil),
        mod_spec(a, b) == Ok::<ValueV, Seq<char>>(ValueV::Nil),
{
}

/// A list added to anything but `Nil` is a list: a list is lengthened by a
/// list, and by any other value as by the list of that one value.
pub proof fn law_lists_absorb(l: Seq<ValueV>, b: ValueV)
    requires
        !(b is Nil),
    ensures
        add_spec(ValueV::List(l), b) == Ok::<ValueV, Seq<char>>(
            ValueV::List(
                l + match b {
                    ValueV::List(m) => m,
                    _ => seq![b],
                },
            ),
        ),
{
}

/// A string added to a number or a boolean is a string: the text of the
/// other is appended.
pub proof fn law_strings_absorb(s: Seq<char>, b: ValueV)
    requires
        b is Float || b is Integer || b is Bool || b is String,
    ensures
        add_spec(ValueV::String(s), b) == Ok::<ValueV, Seq<char>>(
            ValueV::String(s + b.as_str()->String_0),
        ),
{
}

/// What an evaluation leaves of the frames: their number, every frame
/// between the global frame and the top frame, and, below another frame, the
/// names that the global frame binds.
pub open spec fn frames_kept(before: EnvV, after: EnvV) -> bool {
    &&& after.frames.len() == before.frames.len()
    &&& forall|i: int|
        1 <= i < before.frames.len() - 1 ==> #[trigger] after.frames[i] == before.frames[i]
    &&& before.frames.len() >= 2 ==> after.frames[0].dom() == before.frames[0].dom()
}

/// What a call leaves of the frames: their number, every frame but the
/// global frame, and the names that the global frame binds.
pub open spec fn call_kept(before: EnvV, after: EnvV) -> bool {
    &&& after.frames.len() == before.frames.len()
    &&& forall|i: int|
        1 <= i < before.frames.len() ==> #[trigger] after.frames[i] == before.frames[i]
    &&& after.frames[0].dom() == before.frames[0].dom()
}

/// An assignment keeps the frames in the sense of [`frames_kept`].
pub proof fn lemma_push_val_kept(env: EnvV, name: Seq<char>, val: ValueV)
    requires
        env.wf(),
    ensures
        frames_kept(env, env.push_val(name, val)),
{
    let after = env.push_val(name, val);
    if env.frames[0].contains_key(name) {
        assert(after.frames[0].dom() =~= env.frames[0].dom());
    }
}

/// Printing touches the console only.
pub proof fn lemma_print_all_frames(env: EnvV, args: Seq<ValueV>, newline: bool)
    ensures
        print_all(env, args, newline).frames == env.frames,
        print_all(env, args, newline).functions == env.functions,
    decreases args.len(),
{
    if args.len() > 0 {
        lemma_print_all_frames(env, args.drop_last(), newline);
    }
}

/// A built-in function touches the console only.
pub proof fn lemma_intrinsic_frames(name: Seq<char>, args: Seq<ValueV>, env: EnvV)
    ensures
        intrinsic_spec(name, args, env).1.frames == env.frames,
        intrinsic_spec(name, args, env).1.functions == env.functions,
{
    lemma_print_all_frames(env, args, false);
    lemma_print_all_frames(env, args, true);
}

/// Binding parameters touches the top frame only.
pub proof fn lemma_bind_frames(env: EnvV, params: Seq<Seq<char>>, args: Seq<ValueV>, n: nat)
    requires
        env.wf(),
    ensures
        bind_spec(env, params, args, n).frames.len() == env.frames.len(),
        forall|i: int|
            0 <= i < env.frames.len() - 1 ==> #[trigger] bind_spec(env, params, args, n).frames[i]
                == env.frames[i],
        bind_spec(env, params, args, n).functions == env.functions,
        bind_spec(env, params, args, n).console == env.console,
    decreases n,
{
    if n > 0 {
        lemma_bind_frames(env, params, args, (n - 1) as nat);
    }
}

/// Every evaluation keeps the frames in the sense of [`frames_kept`].
pub proof fn lemma_eval_frames(ast: AstV, env: EnvV, fuel: nat)
    requires
        env.wf(),
    ensures
        frames_kept(env, eval_spec(ast, env, fuel).1),
    decreases fuel, 1nat, ast,
{
    match ast {
        AstV::Literal(_) => {},
        AstV::Get(_) => {},
        AstV::VecLiteral(items) => {
            lemma_eval_list_frames(items, env, fuel);
        },
        AstV::FunDef { .. } => {},
        AstV::Assign { name, value } => {
            lemma_eval_frames(*value, env, fuel);
            let (v, env1) = eval_spec(*value, env, fuel);
            lemma_push_val_kept(env1, name, v);
        },
        AstV::While { cond, body } => {
            lemma_while_frames(*cond, *body, env, fuel, ValueV::Nil);
        },
        AstV::ExpressionList(items) => {
            lemma_eval_list_frames(items, env, fuel);
        },
        AstV::Call { name, with } => {
            lemma_eval_list_frames(with, env, fuel);
            let (vals, env1) = eval_list_spec(with, env, fuel);
            lemma_call_frames(name, vals, env1, fuel);
        },
        AstV::If { if_, then_, else_ } => {
            lemma_eval_frames(*if_, env, fuel);
            let (c, env1) = eval_spec(*if_, env, fuel);
            let (b, env2) = force_bool_spec(c, env1);
            if b {
                lemma_eval_frames(*then_, env2, fuel);
            } else {
                match else_ {
                    Some(e) => {
                        lemma_eval_frames(*e, env2, fuel);
                    },
                    None => {},
                }
            }
        },
        AstV::Fork { left, right, op } => {
            lemma_eval_frames(*left, env, fuel);
            let (l, env1) = eval_spec(*left, env, fuel);
            lemma_eval_frames(*right, env1, fuel);
        },
    }
}

/// Evaluating a list of nodes keeps the frames.
pub proof fn lemma_eval_list_frames(items: Seq<AstV>, env: EnvV, fuel: nat)
    requires
        env.wf(),
    ensures
        frames_kept(env, eval_list_spec(items, env, fuel).1),
    decreases fuel, 1nat, items,
{
    if items.len() > 0 {
        lemma_eval_list_frames(items.drop_last(), env, fuel);
        let (vals, env1) = eval_list_spec(items.drop_last(), env, fuel);
        lemma_eval_frames(items.last(), env1, fuel);
    }
}

/// A loop keeps the frames.
pub proof fn lemma_while_frames(cond: AstV, body: AstV, env: EnvV, fuel: nat, last: ValueV)
    requires
        env.wf(),
    ensures
        frames_kept(env, while_spec(cond, body, env, fuel, last).1),
    decreases fuel, 0nat,
{
    if fuel > 0 {
        let less = (fuel - 1) as nat;
        lemma_eval_frames(cond, env, less);
        let (c, env1) = eval_spec(cond, env, less);
        let (b, env2) = force_bool_spec(c, env1);
        if b {
            lemma_eval_frames(body, env2, less);
            let (v, env3) = eval_spec(body, env2, less);
            lemma_while_frames(cond, body, env3, less, v);
        }
    }
}

/// A call keeps the frames in the sense of [`call_kept`]: the frame of the
/// call is gone when it returns, and below it only values of names that the
/// global frame already bound can differ.
pub proof fn lemma_call_frames(name: Seq<char>, args: Seq<ValueV>, env: EnvV, fuel: nat)
    requires
        env.wf(),
    ensures
        call_kept(env, eval_function_spec(name, args, env, fuel).1),
    decreases fuel, 0nat,
{
    let given = args.reverse();
    if is_intrinsic(name) {
        lemma_intrinsic_frames(name, given, env);
    } else if !env.functions.contains_key(name) {
    } else if fuel == 0 {
    } else {
        let (params, body) = env.functions[name];
        let pushed = env.push_env();
        let n = shorter(params.len(), given.len());
        lemma_bind_frames(pushed, params, given, n);
        let env1 = bind_spec(pushed, params, given, n);
        lemma_eval_frames(body, env1, (fuel - 1) as nat);
        let (v, env2) = eval_spec(body, env1, (fuel - 1) as nat);
        let after = env2.pop_env();
        assert(after.frames =~= env2.frames.drop_last());
        assert forall|i: int| 1 <= i < env.frames.len() implies #[trigger] after.frames[i]
            == env.frames[i] by {
            assert(env2.frames[i] == env1.frames[i]);
            assert(env1.frames[i] == pushed.frames[i]);
        }
        assert(env1.frames[0] == pushed.frames[0]);
    }
}

/// Scope isolation: a name that the global frame does not bind reads after a
/// call as it read before it, whatever the call assigned to it.
pub proof fn law_scope_isolation(
    name: Seq<char>,
    args: Seq<ValueV>,
    env: EnvV,
    fuel: nat,
    variable: Seq<char>,
)
    requires
        env.wf(),
        !env.frames[0].contains_key(variable),
    ensures
        eval_function_spec(name, args, env, fuel).1.fetch(variable) == env.fetch(variable),
{
    lemma_call_frames(name, args, env, fuel);
    let after = eval_function_spec(name, args, env, fuel).1;
    assert(after.frames[0].dom().contains(variable) == env.frames[0].dom().contains(variable));
    if env.frames.len() >= 2 {
        assert(after.frames[env.frames.len() - 1] == env.frames[env.frames.len() - 1]);
    }
}

/// Whether `name` is among the first `n` of `params`.
pub open spec fn among(params: Seq<Seq<char>>, n: nat, name: Seq<char>) -> bool {
    exists|i: int| 0 <= i < n && i < params.len() && params[i] == name
}

/// Binding parameters in a fresh frame leaves a name that is no parameter
/// out of that frame.
pub proof fn lemma_bind_top(
    env: EnvV,
    params: Seq<Seq<char>>,
    args: Seq<ValueV>,
    n: nat,
    name: Seq<char>,
)
    requires
        env.wf(),
        n <= params.len(),
        !among(params, n, name),
    ensures
        bind_spec(env, params, args, n).top().contains_key(name) == env.top().contains_key(name),
    decreases n,
{
    if n > 0 {
        assert(!among(params, (n - 1) as nat, name)) by {
            if among(params, (n - 1) as nat, name) {
                let i = choose|i: int| 0 <= i < n - 1 && i < params.len() && params[i] == name;
                assert(0 <= i < n && i < params.len() && params[i] == name);
            }
        }
        lemma_bind_top(env, params, args, (n - 1) as nat, name);
        lemma_bind_frames(env, params, args, (n - 1) as nat);
        assert(params[n - 1] != name) by {
            if params[n - 1] == name {
                assert(0 <= n - 1 < n && n - 1 < params.len() && params[n - 1] == name);
            }
        }
    }
}

/// Reading falls back on the global frame: a name that the top frame does
/// not bind and the global frame does reads as the global frame has it.
pub proof fn law_read_falls_back(env: EnvV, variable: Seq<char>, fuel: nat)
    requires
        env.wf(),
        !env.top().contains_key(variable),
        env.frames[0].contains_key(variable),
    ensures
        eval_spec(AstV::Get(variable), env, fuel) == (env.frames[0][variable], env),
{
}

/// Global fallback: after an assignment at the top level, the body of a
/// function that has no parameter of that name reads the assigned value.
pub proof fn law_global_fallback(
    env: EnvV,
    variable: Seq<char>,
    val: ValueV,
    params: Seq<Seq<char>>,
    args: Seq<ValueV>,
    fuel: nat,
)
    requires
        env.frames.len() == 1,
        !among(params, shorter(params.len(), args.len()), variable),
    ensures
        ({
            let assigned = env.push_val(variable, val);
            let inside = bind_spec(
                assigned.push_env(),
                params,
                args,
                shorter(params.len(), args.len()),
            );
            eval_spec(AstV::Get(variable), inside, fuel) == (val, inside)
        }),
{
    let assigned = env.push_val(variable, val);
    let pushed = assigned.push_env();
    let n = shorter(params.len(), args.len());
    let inside = bind_spec(pushed, params, args, n);
    lemma_bind_frames(pushed, params, args, n);
    lemma_bind_top(pushed, params, args, n, variable);
    assert(inside.frames[0] == pushed.frames[0]);
    assert(pushed.frames[0] == assigned.frames[0]);
    assert(assigned.frames[0].contains_key(variable));
    assert(assigned.frames[0][variable] == val);
    assert(!pushed.top().contains_key(variable));
}

/// List order: a list literal evaluates its items from the first to the
/// last, each in the environment that the items before it have left, and
/// its value holds their values in that order.
pub proof fn law_list_order(items: Seq<AstV>, env: EnvV, fuel: nat)
    ensures
        eval_spec(AstV::VecLiteral(items), env, fuel).0 == ValueV::List(
            eval_list_spec(items, env, fuel).0,
        ),
        eval_list_spec(items, env, fuel).0.len() == items.len(),
        forall|i: int|
            0 <= i < items.len() ==> #[trigger] eval_list_spec(items, env, fuel).0[i] == eval_spec(
                items[i],
                eval_list_spec(items.take(i), env, fuel).1,
                fuel,
            ).0,
    decreases items.len(),
{
    if items.len() > 0 {
        let front = items.drop_last();
        law_list_order(front, env, fuel);
        let (vals, env1) = eval_list_spec(front, env, fuel);
        assert(items.take(items.len() - 1) =~= front);
        assert forall|i: int| 0 <= i < items.len() implies #[trigger] eval_list_spec(
            items,
            env,
            fuel,
        ).0[i] == eval_spec(items[i], eval_list_spec(items.take(i), env, fuel).1, fuel).0 by {
            if i < items.len() - 1 {
                assert(front.take(i) =~= items.take(i));
                assert(front[i] == items[i]);
            }
        }
    }
}

/// The outputs of a list of values, one event for each in their order.
pub open spec fn outputs(args: Seq<ValueV>) -> Seq<EventV> {
    Seq::new(args.len(), |i: int| EventV::Output(args[i].display()))
}

/// Argument order: `disp` called on the arguments as a call node holds them,
/// the last of the source first, prints them in the order of the source.
pub proof fn law_disp_order(args: Seq<ValueV>, env: EnvV, fuel: nat)
    ensures
        eval_function_spec("disp"@, args.reverse(), env, fuel).0 == ValueV::Nil,
        eval_function_spec("disp"@, args.reverse(), env, fuel).1 == (EnvV {
            console: env.console + outputs(args),
            ..env
        }),
{
    assert(args.reverse().reverse() =~= args);
    lemma_print_all_console(env, args);
    lemma_print_all_frames(env, args, false);
}

/// Printing appends one event for each value, in their order.
pub proof fn lemma_print_all_console(env: EnvV, args: Seq<ValueV>)
    ensures
        print_all(env, args, false).console == env.console + outputs(args),
    decreases args.len(),
{
    if args.len() == 0 {
        assert(env.console + outputs(args) =~= env.console);
    } else {
        lemma_print_all_console(env, args.drop_last());
        assert(env.console + outputs(args) =~= (env.console + outputs(args.drop_last())).push(
            EventV::Output(args.last().display()),
        ));
    }
}

} // verus!
