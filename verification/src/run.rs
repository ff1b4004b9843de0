//! The runtime: one interpreter that reads, parses and evaluates program
//! texts, one after the other, in one environment.

use vstd::prelude::*;
use crate::ast::{asts_view, Ast, AstV};
use crate::environment::{EnvV, Environment};
use crate::error::{error, Event};
use crate::eval::{eval_last, eval_list_spec, eval_spec, fail, last_or_nil};
use crate::lexer::{lex, lex_spec, rules, rules_spec, LexerRules};
use crate::parser::{parse, parse_program};
use crate::value::{Value, ValueV};

verus! {

/// What reading a program text comes to: its statements, or the message of
/// the diagnostic for a text that the lexer or the grammar refuses.
pub open spec fn read_spec(text: Seq<char>) -> Result<Seq<AstV>, Seq<char>> {
    match lex_spec(rules_spec(), text) {
        Err(_) => Err("Invalid Syntax!"@),
        Ok(lexemes) => match parse_program(lexemes) {
            None => Err("Invalid Structure of Program!"@),
            Some(program) => Ok(program),
        },
    }
}

/// What running a program text in an environment comes to: a text that the
/// lexer or the grammar refuses is reported and leaves the variables and the
/// functions as they are; the statements of any other are evaluated in turn
/// and the value of the last is the result.
pub open spec fn run_spec(text: Seq<char>, env: EnvV, fuel: nat) -> (ValueV, EnvV) {
    match read_spec(text) {
        Err(msg) => fail(env, msg),
        Ok(program) => {
            let (vals, env1) = eval_list_spec(program, env, fuel);
            (last_or_nil(vals), env1)
        },
    }
}

/// An interpreter with its environment.
pub struct Runtime {
    lexer: LexerRules,
    environment: Environment,
    fuel: u64,
}

impl View for Runtime {
    type V = EnvV;

    closed spec fn view(&self) -> EnvV {
        self.environment@
    }
}

impl Runtime {
    /// Whether the runtime holds the rules of the language and an environment
    /// with its global frame. Every runtime that this library hands out does.
    pub closed spec fn wf(self) -> bool {
        self.environment.wf() && self.lexer@ == rules_spec()
    }

    /// The budget that every run is given.
    pub closed spec fn budget(self) -> nat {
        self.fuel as nat
    }

    /// A runtime with a fresh environment and the largest budget.
    pub fn new() -> (r: Runtime)
        ensures
            r.wf(),
            r@ == EnvV::initial(),
            r.budget() == u64::MAX,
    {
        Runtime { lexer: rules(), environment: Environment::new(), fuel: u64::MAX }
    }

    /// A runtime with a fresh environment and the given budget for every run.
    pub fn with_budget(fuel: u64) -> (r: Runtime)
        ensures
            r.wf(),
            r@ == EnvV::initial(),
            r.budget() == fuel,
    {
        Runtime { lexer: rules(), environment: Environment::new(), fuel }
    }

    /// Reads a program text: its statements in the order of the text. A text
    /// that the lexer or the grammar refuses is reported and gives nothing.
    pub fn read(&mut self, text: &str) -> (r: Option<Vec<Ast>>)
        requires
            old(self).wf(),
        ensures
            final(self).wf(),
            final(self).budget() == old(self).budget(),
            match read_spec(text@) {
                Ok(program) => r is Some && asts_view(r->0@) == program && final(self)@ == old(
                    self,
                )@,
                Err(msg) => r is None && final(self)@ == old(self)@.report(msg),
            },
    {
        let lexemes = match lex(&self.lexer, text) {
            Ok(lexemes) => lexemes,
            Err(_) => {
                error(String::from_str("Invalid Syntax!"), &mut self.environment.console);
                return None;
            },
        };
        match parse(&lexemes) {
            Some(program) => Some(program),
            None => {
                error(
                    String::from_str("Invalid Structure of Program!"),
                    &mut self.environment.console,
                );
                None
            },
        }
    }

    /// Evaluates one statement in the environment of the runtime.
    pub fn step(&mut self, statement: &Ast) -> (r: Value)
        requires
            old(self).wf(),
        ensures
            final(self).wf(),
            final(self).budget() == old(self).budget(),
            (r@, final(self)@) == eval_spec(statement@, old(self)@, old(self).budget()),
    {
        statement.eval(&mut self.environment, self.fuel)
    }

    /// Runs a program text and returns the value of its last statement.
    pub fn run(&mut self, text: &str) -> (r: Value)
        requires
            old(self).wf(),
        ensures
            final(self).wf(),
            (r@, final(self)@) == run_spec(text@, old(self)@, old(self).budget()),
            final(self).budget() == old(self).budget(),
    {
        match self.read(text) {
            Some(program) => eval_last(&program, &mut self.environment, self.fuel),
            None => Value::Nil,
        }
    }

    /// Hands out what the programs have printed and reported since the last
    /// call, in the order in which it arose.
    pub fn take_events(&mut self) -> (r: Vec<Event>)
        requires
            old(self).wf(),
        ensures
            final(self).wf(),
            r@.map_values(|e: Event| e@) == old(self)@.console,
            final(self)@ == (EnvV { console: Seq::empty(), ..old(self)@ }),
            final(self).budget() == old(self).budget(),
    {
        self.environment.console.take()
    }
}

} // verus!
