//! A small interpreter for a dynamically typed, expression-oriented scripting
//! language with arbitrary-precision numbers, strings, lists, booleans and nil.
//!
//! A program text goes through the [`lexer`] and the [`parser`] and becomes a
//! list of syntax trees ([`ast`]), which [`eval`] walks against an
//! [`environment`] of variables and functions. [`value`] holds the values and
//! their arithmetic, [`number`] the numbers behind them, [`error`] the console
//! on which programs print and diagnostics are left, and [`run`] the runtime
//! that ties these together. [`grammar`] states the productions of the
//! language and [`laws`] what holds of every evaluation.
//!
//! Nothing here prints or stops the program: what a program prints and every
//! diagnostic is left on the console in order, and a failed evaluation yields
//! `Nil`.

use vstd::prelude::*;

pub mod ast;
pub mod environment;
pub mod error;
pub mod eval;
pub mod grammar;
pub mod laws;
pub mod lexer;
pub mod number;
pub mod parser;
pub mod run;
pub mod value;

verus! {

/// Reverses a vector.
pub fn rev<T>(to_rev: Vec<T>) -> (r: Vec<T>)
    ensures
        r@ == to_rev@.reverse(),
{
    let mut src = to_rev;
    let mut out: Vec<T> = Vec::new();
    let ghost orig = src@;
    while src.len() > 0
        invariant
            src@.len() <= orig.len(),
            src@ == orig.subrange(0, src@.len() as int),
            out@ == orig.subrange(src@.len() as int, orig.len() as int).reverse(),
        decreases src.len(),
    {
        let x = src.pop().unwrap();
        out.push(x);
        assert(out@ =~= orig.subrange(src@.len() as int, orig.len() as int).reverse());
    }
    assert(out@ =~= orig.reverse());
    out
}

} // verus!
