//! The abstract syntax tree that the parser builds and the evaluator walks.

use vstd::prelude::*;
use crate::value::{Value, ValueV};

verus! {

pub type Name = String;

pub type Bast = Box<Ast>;

pub type Vast = Vec<Ast>;

/// The binary operators.
#[derive(Debug, Copy, Clone, Hash, PartialEq, Eq, Structural)]
pub enum Forkop {
    Gt,
    Lt,
    Lte,
    Gte,
    Eql,
    Neq,
    Add,
    Sub,
    Mul,
    Div,
    Pow,
    Mod,
}

/// A node of the syntax tree.
#[derive(Debug, PartialEq, Eq)]
pub enum Ast {
    /// A literal value.
    Literal(Value),
    /// The reading of a variable.
    Get(Name),
    /// A list of expressions whose values make a list.
    VecLiteral(Vast),
    /// The definition of a function.
    FunDef { name: Name, args: Vec<Name>, body: Bast },
    /// An assignment to a variable.
    Assign { name: Name, value: Bast },
    /// A loop.
    While { cond: Bast, body: Bast },
    /// A sequence of expressions; its value is that of the last.
    ExpressionList(Vast),
    /// A call; `with` holds the arguments, the last of the source first.
    Call { name: Name, with: Vast },
    /// A conditional.
    If { if_: Bast, then_: Bast, else_: Option<Bast> },
    /// A binary operator applied to two expressions.
    Fork { left: Bast, right: Bast, op: Forkop },
}

/// The mathematical content of an [`Ast`].
pub enum AstV {
    Literal(ValueV),
    Get(Seq<char>),
    VecLiteral(Seq<AstV>),
    FunDef { name: Seq<char>, args: Seq<Seq<char>>, body: Box<AstV> },
    Assign { name: Seq<char>, value: Box<AstV> },
    While { cond: Box<AstV>, body: Box<AstV> },
    ExpressionList(Seq<AstV>),
    Call { name: Seq<char>, with: Seq<AstV> },
    If { if_: Box<AstV>, then_: Box<AstV>, else_: Option<Box<AstV>> },
    Fork { left: Box<AstV>, right: Box<AstV>, op: Forkop },
}

/// The contents of a list of names.
pub open spec fn names_view(names: Seq<String>) -> Seq<Seq<char>> {
    Seq::new(names.len(), |i: int| names[i]@)
}

/// The content of a node.
pub open spec fn ast_view(a: Ast) -> AstV
    decreases a, 0nat,
{
    match a {
        Ast::Literal(v) => AstV::Literal(v@),
        Ast::Get(name) => AstV::Get(name@),
        Ast::VecLiteral(items) => AstV::VecLiteral(asts_view(items@)),
        Ast::FunDef { name, args, body } => AstV::FunDef {
            name: name@,
            args: names_view(args@),
            body: Box::new(ast_view(*body)),
        },
        Ast::Assign { name, value } => AstV::Assign { name: name@, value: Box::new(ast_view(*value)) },
        Ast::While { cond, body } => AstV::While {
            cond: Box::new(ast_view(*cond)),
            body: Box::new(ast_view(*body)),
        },
        Ast::ExpressionList(items) => AstV::ExpressionList(asts_view(items@)),
        Ast::Call { name, with } => AstV::Call { name: name@, with: asts_view(with@) },
        Ast::If { if_, then_, else_ } => AstV::If {
            if_: Box::new(ast_view(*if_)),
            then_: Box::new(ast_view(*then_)),
            else_: match else_ {
                Some(e) => Some(Box::new(ast_view(*e))),
                None => None,
            },
        },
        Ast::Fork { left, right, op } => AstV::Fork {
            left: Box::new(ast_view(*left)),
            right: Box::new(ast_view(*right)),
            op: op,
        },
    }
}

/// The contents of a list of nodes.
pub open spec fn asts_view(asts: Seq<Ast>) -> Seq<AstV>
    decreases asts, 1nat,
{
    Seq::new(
        asts.len(),
        |i: int|
            if 0 <= i < asts.len() {
                ast_view(asts[i])
            } else {
                AstV::Literal(ValueV::Nil)
            },
    )
}

impl View for Ast {
    type V = AstV;

    open spec fn view(&self) -> AstV {
        ast_view(*self)
    }
}

/// The content of a list of nodes, item by item.
pub proof fn lemma_asts_view(asts: Seq<Ast>)
    ensures
        asts_view(asts).len() == asts.len(),
        forall|i: int| 0 <= i < asts.len() ==> (#[trigger] asts_view(asts)[i]) == asts[i]@,
{
}

/// A copy of a list of names.
pub fn clone_names(names: &Vec<String>) -> (out: Vec<String>)
    ensures
        names_view(out@) == names_view(names@),
{
    let mut out: Vec<String> = Vec::new();
    let mut i: usize = 0;
    while i < names.len()
        invariant
            i <= names.len(),
            out@.len() == i,
            forall|j: int| 0 <= j < i ==> (#[trigger] out@[j])@ == names@[j]@,
        decreases names.len() - i,
    {
        out.push(names[i].clone());
        i += 1;
    }
    assert(names_view(out@) =~= names_view(names@));
    out
}

/// A deep copy of a list of nodes.
pub fn clone_asts(asts: &Vec<Ast>) -> (out: Vec<Ast>)
    ensures
        asts_view(out@) == asts_view(asts@),
    decreases asts, 1nat,
{
    let mut out: Vec<Ast> = Vec::new();
    let mut i: usize = 0;
    while i < asts.len()
        invariant
            i <= asts.len(),
            out@.len() == i,
            forall|j: int| 0 <= j < i ==> (#[trigger] out@[j])@ == asts@[j]@,
        decreases asts.len() - i,
    {
        out.push(asts[i].clone());
        i += 1;
    }
    proof {
        lemma_asts_view(out@);
        lemma_asts_view(asts@);
    }
    assert(asts_view(out@) =~= asts_view(asts@));
    out
}

impl Clone for Ast {
    fn clone(&self) -> (r: Self)
        ensures
            r@ == self@,
        decreases self, 0nat,
    {
        match self {
            Ast::Literal(v) => Ast::Literal(v.clone()),
            Ast::Get(name) => Ast::Get(name.clone()),
            Ast::VecLiteral(items) => {
                let out = clone_asts(items);
                Ast::VecLiteral(out)
            },
            Ast::FunDef { name, args, body } => Ast::FunDef {
                name: name.clone(),
                args: clone_names(args),
                body: Box::new((&**body).clone()),
            },
            Ast::Assign { name, value } => Ast::Assign {
                name: name.clone(),
                value: Box::new((&**value).clone()),
            },
            Ast::While { cond, body } => Ast::While {
                cond: Box::new((&**cond).clone()),
                body: Box::new((&**body).clone()),
            },
            Ast::ExpressionList(items) => {
                let out = clone_asts(items);
                Ast::ExpressionList(out)
            },
            Ast::Call { name, with } => {
                let out = clone_asts(with);
                let name2 = name.clone();
                Ast::Call { name: name2, with: out }
            },
            Ast::If { if_, then_, else_ } => Ast::If {
                if_: Box::new((&**if_).clone()),
                then_: Box::new((&**then_).clone()),
                else_: match else_ {
                    Some(e) => Some(Box::new((&**e).clone())),
                    None => None,
                },
            },
            Ast::Fork { left, right, op } => Ast::Fork {
                left: Box::new((&**left).clone()),
                right: Box::new((&**right).clone()),
                op: *op,
            },
        }
    }
}

impl Ast {
    /// The literal `Nil`.
    pub fn null() -> (r: Ast)
        ensures
            r@ == AstV::Literal(ValueV::Nil),
    {
        Ast::Literal(Value::Nil)
    }

    /// The node in a box.
    pub fn boxed(self) -> (r: Box<Ast>)
        ensures
            *r == self,
    {
        Box::new(self)
    }
}

} // verus!
