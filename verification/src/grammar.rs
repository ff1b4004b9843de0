//! The productions of the language, as a relation between lexemes and syntax
//! trees, and the proof that the parser only builds trees that the
//! productions allow.
//!
//! The relation says which trees a stretch of lexemes can be read as. It
//! knows nothing of precedence: where it allows several trees, the parser
//! builds the one that its levels of precedence single out.

use vstd::prelude::*;
use crate::ast::{AstV, Forkop};
use crate::lexer::{LexemeV, TokenKind};
use crate::number::{decimal_value, float_parse_spec, is_signed_digits};
use crate::parser::{
    advance, is_at, kind_at, null, operator_at, parse_arguments, parse_binary,
    parse_binary_rest, parse_body, parse_conditional, parse_expr, parse_names, parse_operand,
    parse_primary, parse_program, parse_statements, unquote, Parsed, ParsedList,
};
use crate::value::{ValueV, FLOATING_PRECISION};

verus! {

/// The binary operator that a category of lexemes writes.
pub open spec fn forkop_of(kind: TokenKind) -> Option<Forkop> {
    match kind {
        TokenKind::Lte => Some(Forkop::Lte),
        TokenKind::Gte => Some(Forkop::Gte),
        TokenKind::Eql => Some(Forkop::Eql),
        TokenKind::Neq => Some(Forkop::Neq),
        TokenKind::Gt => Some(Forkop::Gt),
        TokenKind::Lt => Some(Forkop::Lt),
        TokenKind::Plus => Some(Forkop::Add),
        TokenKind::Minus => Some(Forkop::Sub),
        TokenKind::Star => Some(Forkop::Mul),
        TokenKind::Slash => Some(Forkop::Div),
        TokenKind::Percent => Some(Forkop::Mod),
        TokenKind::Caret => Some(Forkop::Pow),
        _ => None,
    }
}

/// Whether the lexeme at `pos` writes the operator `op`.
pub open spec fn writes_op(ts: Seq<LexemeV>, pos: nat, op: Forkop) -> bool {
    pos < ts.len() && forkop_of(ts[pos as int].kind) == Some(op)
}

/// Whether the lexeme at `pos` is the name `name`.
pub open spec fn writes_name(ts: Seq<LexemeV>, pos: nat, name: Seq<char>) -> bool {
    is_at(ts, pos, TokenKind::Name) && ts[pos as int].raw == name
}

/// Whether one lexeme writes the literal value `v`.
pub open spec fn writes_literal(lexeme: LexemeV, v: ValueV) -> bool {
    match v {
        ValueV::String(s) => lexeme.kind == TokenKind::Str && s == unquote(lexeme.raw),
        ValueV::Integer(i) => lexeme.kind == TokenKind::Integer && is_signed_digits(lexeme.raw) && i
            == decimal_value(lexeme.raw),
        ValueV::Float(f) => lexeme.kind == TokenKind::Float && float_parse_spec(
            lexeme.raw,
            FLOATING_PRECISION as nat,
        ) == Some(f),
        _ => false,
    }
}

/// Whether the lexemes from `from` up to `to` can be read as the expression
/// `ast`: as that expression in parentheses, as a conditional in braces, or
/// by the production of its kind of node.
pub open spec fn derives(ts: Seq<LexemeV>, from: nat, to: nat, ast: AstV) -> bool
    decreases ast, to - from, 0nat,
{
    &&& from < to <= ts.len()
    &&& {
        ||| to - from >= 2 && is_at(ts, from, TokenKind::LParen) && is_at(
            ts,
            (to - 1) as nat,
            TokenKind::RParen,
        ) && derives(ts, from + 1, (to - 1) as nat, ast)
        ||| to - from >= 2 && is_at(ts, from, TokenKind::LBrace) && is_at(
            ts,
            (to - 1) as nat,
            TokenKind::RBrace,
        ) && derives_conditional(ts, from + 1, (to - 1) as nat, ast)
        ||| match ast {
            AstV::Literal(v) => to == from + 1 && writes_literal(ts[from as int], v),
            AstV::Get(name) => to == from + 1 && writes_name(ts, from, name),
            AstV::VecLiteral(items) => to - from >= 3 && is_at(ts, from, TokenKind::Dollar)
                && is_at(ts, from + 1, TokenKind::LBracket) && is_at(
                ts,
                (to - 1) as nat,
                TokenKind::RBracket,
            ) && derives_items(ts, from + 2, (to - 1) as nat, items),
            AstV::FunDef { name, args, body } => is_at(ts, from, TokenKind::Fn) && writes_name(
                ts,
                from + 1,
                name,
            ) && is_at(ts, from + 2, TokenKind::LParen) && exists|p: nat|
                #[trigger] is_at(ts, p, TokenKind::RParen) && derives_names(ts, from + 3, p, args)
                    && derives(ts, p + 1, to, *body),
            AstV::Assign { name, value } => writes_name(ts, from, name) && is_at(
                ts,
                from + 1,
                TokenKind::Assign,
            ) && derives(ts, from + 2, to, *value),
            AstV::While { cond, body } => is_at(ts, from, TokenKind::While) && exists|p: nat|
                #[trigger] is_at(ts, p, TokenKind::Colon) && derives(ts, from + 1, p, *cond)
                    && derives(ts, p + 1, to, *body),
            AstV::ExpressionList(items) => to - from >= 2 && is_at(ts, from, TokenKind::LBracket)
                && is_at(ts, (to - 1) as nat, TokenKind::RBracket) && derives_statements(
                ts,
                from + 1,
                (to - 1) as nat,
                items,
            ),
            AstV::Call { name, with } => to - from >= 3 && writes_name(ts, from, name) && is_at(
                ts,
                from + 1,
                TokenKind::LParen,
            ) && is_at(ts, (to - 1) as nat, TokenKind::RParen) && derives_arguments(
                ts,
                from + 2,
                (to - 1) as nat,
                with,
            ),
            AstV::If { .. } => false,
            AstV::Fork { left, right, op } => exists|p: nat|
                #[trigger] writes_op(ts, p, op) && derives(ts, from, p, *left) && derives(
                    ts,
                    p + 1,
                    to,
                    *right,
                ),
        }
    }
}

/// Whether the lexemes from `from` up to `to` can be read as the inside of a
/// conditional that means `ast`: nothing, for `Nil`; an expression; a
/// condition, a colon and a branch, with `Nil` as the other branch; or
/// these, a comma and the inside of a further conditional as the other
/// branch.
pub open spec fn derives_conditional(ts: Seq<LexemeV>, from: nat, to: nat, ast: AstV) -> bool
    decreases ast, to - from, 1nat,
{
    ||| from == to && to <= ts.len() && ast == null()
    ||| derives(ts, from, to, ast)
    ||| match ast {
        AstV::If { if_, then_, else_: Some(other) } => exists|p: nat|
            #[trigger] is_at(ts, p, TokenKind::Colon) && derives(ts, from, p, *if_) && {
                ||| derives(ts, p + 1, to, *then_) && *other == null()
                ||| exists|q: nat|
                    #[trigger] is_at(ts, q, TokenKind::Comma) && derives(ts, p + 1, q, *then_)
                        && derives_conditional(ts, q + 1, to, *other)
            },
        _ => false,
    }
}

/// Whether the lexemes from `from` up to `to` can be read as the items of a
/// list in the order of `items`: expressions separated by commas, with or
/// without a comma behind the last.
pub open spec fn derives_items(ts: Seq<LexemeV>, from: nat, to: nat, items: Seq<AstV>) -> bool
    decreases items, 0nat, 2nat,
{
    if items.len() == 0 {
        from == to && to <= ts.len()
    } else {
        ||| items.len() == 1 && derives(ts, from, to, items[0])
        ||| exists|p: nat|
            #[trigger] is_at(ts, p, TokenKind::Comma) && derives(ts, from, p, items[0])
                && derives_items(ts, p + 1, to, items.drop_first())
    }
}

/// Whether the lexemes from `from` up to `to` can be read as the arguments
/// of a call that holds them as `held`, the last of the text first.
pub open spec fn derives_arguments(ts: Seq<LexemeV>, from: nat, to: nat, held: Seq<AstV>) -> bool
    decreases held, 0nat, 2nat,
{
    if held.len() == 0 {
        from == to && to <= ts.len()
    } else {
        ||| held.len() == 1 && derives(ts, from, to, held.last())
        ||| exists|p: nat|
            #[trigger] is_at(ts, p, TokenKind::Comma) && derives(ts, from, p, held.last())
                && derives_arguments(ts, p + 1, to, held.drop_last())
    }
}

/// Whether the lexemes from `from` up to `to` can be read as the statements
/// `items`: expressions, each followed by a semicolon.
pub open spec fn derives_statements(ts: Seq<LexemeV>, from: nat, to: nat, items: Seq<AstV>) -> bool
    decreases items, 0nat, 2nat,
{
    if items.len() == 0 {
        from == to && to <= ts.len()
    } else {
        exists|p: nat|
            #[trigger] is_at(ts, p, TokenKind::Semicolon) && derives(ts, from, p, items[0])
                && derives_statements(ts, p + 1, to, items.drop_first())
    }
}

/// Whether the lexemes from `from` up to `to` can be read as the parameter
/// names `names`: names separated by commas, with or without a comma behind
/// the last.
pub open spec fn derives_names(ts: Seq<LexemeV>, from: nat, to: nat, names: Seq<Seq<char>>) -> bool
    decreases names.len(),
{
    if names.len() == 0 {
        from == to && to <= ts.len()
    } else {
        &&& writes_name(ts, from, names[0])
        &&& {
            ||| names.len() == 1 && to == from + 1
            ||| is_at(ts, from + 1, TokenKind::Comma) && derives_names(
                ts,
                from + 2,
                to,
                names.drop_first(),
            )
        }
    }
}

/// Whether the lexemes write the program `program`.
pub open spec fn derives_program(ts: Seq<LexemeV>, program: Seq<AstV>) -> bool {
    derives_statements(ts, 0, ts.len(), program)
}

/// Whether what a parsing function returns at `pos` is a tree that the
/// productions allow for the lexemes it has read.
pub open spec fn sound(r: Parsed, ts: Seq<LexemeV>, pos: nat) -> bool {
    match r {
        Some((ast, p)) => derives(ts, pos, p, ast),
        None => true,
    }
}

/// Whether what a parsing function for lists returns at `pos`, after the
/// items of `acc`, ends with items that `allowed` accepts for the lexemes it
/// has read.
pub open spec fn sound_list(
    r: ParsedList,
    ts: Seq<LexemeV>,
    pos: nat,
    acc: Seq<AstV>,
    allowed: spec_fn(Seq<LexemeV>, nat, nat, Seq<AstV>) -> bool,
) -> bool {
    match r {
        Some((items, p)) => {
            &&& pos <= p <= ts.len()
            &&& items.len() >= acc.len()
            &&& items.take(acc.len() as int) == acc
            &&& allowed(ts, pos, p, items.skip(acc.len() as int))
        },
        None => true,
    }
}

/// An operator of a level is the operator that its lexeme writes.
proof fn lemma_operator(ts: Seq<LexemeV>, pos: nat, level: nat)
    ensures
        match operator_at(ts, pos, level) {
            Some(op) => writes_op(ts, pos, op),
            None => true,
        },
{
}

/// The items of a list are the arguments of a call that holds them reversed.
proof fn lemma_items_reversed(ts: Seq<LexemeV>, from: nat, to: nat, items: Seq<AstV>)
    requires
        derives_items(ts, from, to, items),
    ensures
        derives_arguments(ts, from, to, items.reverse()),
    decreases items.len(),
{
    let held = items.reverse();
    if items.len() > 0 {
        assert(held.last() == items[0]);
        assert(held.drop_last() =~= items.drop_first().reverse());
        if items.len() == 1 && derives(ts, from, to, items[0]) {
        } else {
            let p = choose|p: nat|
                #[trigger] is_at(ts, p, TokenKind::Comma) && derives(ts, from, p, items[0])
                    && derives_items(ts, p + 1, to, items.drop_first());
            lemma_items_reversed(ts, p + 1, to, items.drop_first());
            assert(is_at(ts, p, TokenKind::Comma) && derives(ts, from, p, held.last())
                && derives_arguments(ts, p + 1, to, held.drop_last()));
        }
    }
}

/// The parser's expressions are allowed by the productions.
proof fn lemma_expr(ts: Seq<LexemeV>, pos: nat)
    ensures
        sound(parse_expr(ts, pos), ts, pos),
    decreases ts.len() - pos, 10nat,
{
    if is_at(ts, pos, TokenKind::Name) && is_at(ts, pos + 1, TokenKind::Assign) {
        lemma_expr(ts, pos + 2);
    } else {
        lemma_binary(ts, pos, 0);
    }
}

/// The parser's expressions of binary operators are allowed by the
/// productions.
proof fn lemma_binary(ts: Seq<LexemeV>, pos: nat, level: nat)
    ensures
        sound(parse_binary(ts, pos, level), ts, pos),
    decreases ts.len() - pos, crate::parser::binary_rank(level),
{
    if level >= 4 {
        lemma_operand(ts, pos);
    } else {
        lemma_binary(ts, pos, level + 1);
        match advance(parse_binary(ts, pos, level + 1), ts, pos) {
            Some((left, p)) => {
                lemma_binary_rest(ts, pos, p, level, left);
            },
            None => {},
        }
    }
}

/// What the parser adds to a left operand is allowed by the productions.
proof fn lemma_binary_rest(ts: Seq<LexemeV>, start: nat, pos: nat, level: nat, left: AstV)
    requires
        derives(ts, start, pos, left),
    ensures
        match parse_binary_rest(ts, pos, level, left) {
            Some((ast, p)) => derives(ts, start, p, ast),
            None => true,
        },
    decreases ts.len() - pos, 0nat,
{
    match operator_at(ts, pos, level) {
        None => {},
        Some(op) => {
            lemma_operator(ts, pos, level);
            lemma_binary(ts, pos + 1, level + 1);
            match advance(parse_binary(ts, pos + 1, level + 1), ts, pos + 1) {
                Some((right, p)) => {
                    let node = AstV::Fork { left: Box::new(left), right: Box::new(right), op };
                    assert(writes_op(ts, pos, op) && derives(ts, start, pos, left) && derives(
                        ts,
                        pos + 1,
                        p,
                        right,
                    ));
                    assert(derives(ts, start, p, node));
                    lemma_binary_rest(ts, start, p, level, node);
                },
                None => {},
            }
        },
    }
}

/// The parser's bodies are allowed by the productions.
proof fn lemma_body(ts: Seq<LexemeV>, pos: nat)
    ensures
        sound(parse_body(ts, pos), ts, pos),
    decreases ts.len() - pos, 5nat,
{
    if is_at(ts, pos, TokenKind::Name) && is_at(ts, pos + 1, TokenKind::Assign) {
        lemma_body(ts, pos + 2);
    } else {
        lemma_operand(ts, pos);
    }
}

/// The parser's operands are allowed by the productions.
proof fn lemma_operand(ts: Seq<LexemeV>, pos: nat)
    ensures
        sound(parse_operand(ts, pos), ts, pos),
    decreases ts.len() - pos, 4nat,
{
    if is_at(ts, pos, TokenKind::While) {
        lemma_expr(ts, pos + 1);
        match advance(parse_expr(ts, pos + 1), ts, pos + 1) {
            Some((cond, p)) => {
                if is_at(ts, p, TokenKind::Colon) {
                    lemma_body(ts, p + 1);
                    match parse_body(ts, p + 1) {
                        Some((body, q)) => {
                            assert(is_at(ts, p, TokenKind::Colon) && derives(ts, pos + 1, p, cond)
                                && derives(ts, p + 1, q, body));
                        },
                        None => {},
                    }
                }
            },
            None => {},
        }
    } else if is_at(ts, pos, TokenKind::Fn) {
        if is_at(ts, pos + 1, TokenKind::Name) && is_at(ts, pos + 2, TokenKind::LParen) {
            lemma_names(ts, pos + 3, Seq::<Seq<char>>::empty());
            let (names, p) = parse_names(ts, pos + 3, Seq::<Seq<char>>::empty());
            assert(names.skip(0) =~= names);
            if is_at(ts, p, TokenKind::RParen) && pos < p {
                lemma_body(ts, p + 1);
                match parse_body(ts, p + 1) {
                    Some((body, q)) => {
                        assert(is_at(ts, p, TokenKind::RParen) && derives_names(
                            ts,
                            pos + 3,
                            p,
                            names,
                        ) && derives(ts, p + 1, q, body));
                    },
                    None => {},
                }
            }
        }
    } else {
        lemma_primary(ts, pos);
    }
}

/// The parser's primary expressions are allowed by the productions.
proof fn lemma_primary(ts: Seq<LexemeV>, pos: nat)
    ensures
        sound(parse_primary(ts, pos), ts, pos),
    decreases ts.len() - pos, 3nat,
{
    match kind_at(ts, pos) {
        None => {},
        Some(kind) => {
            let none = Seq::<AstV>::empty();
            match kind {
                TokenKind::LParen => {
                    lemma_expr(ts, pos + 1);
                },
                TokenKind::Name => {
                    if is_at(ts, pos + 1, TokenKind::LParen) {
                        lemma_arguments(ts, pos + 2, none);
                        match parse_arguments(ts, pos + 2, none) {
                            Some((args, p)) => {
                                assert(args.skip(0) =~= args);
                                lemma_items_reversed(ts, pos + 2, p, args);
                            },
                            None => {},
                        }
                    }
                },
                TokenKind::Dollar => {
                    if is_at(ts, pos + 1, TokenKind::LBracket) {
                        lemma_arguments(ts, pos + 2, none);
                        match parse_arguments(ts, pos + 2, none) {
                            Some((args, p)) => {
                                assert(args.skip(0) =~= args);
                            },
                            None => {},
                        }
                    }
                },
                TokenKind::LBracket => {
                    lemma_statements(ts, pos + 1, none);
                    match parse_statements(ts, pos + 1, none) {
                        Some((es, p)) => {
                            assert(es.skip(0) =~= es);
                        },
                        None => {},
                    }
                },
                TokenKind::LBrace => {
                    lemma_conditional(ts, pos + 1);
                },
                _ => {},
            }
        },
    }
}

/// The parser's arguments and list items are allowed by the productions.
proof fn lemma_arguments(ts: Seq<LexemeV>, pos: nat, acc: Seq<AstV>)
    requires
        pos <= ts.len(),
    ensures
        sound_list(
            parse_arguments(ts, pos, acc),
            ts,
            pos,
            acc,
            |ts: Seq<LexemeV>, from: nat, to: nat, items: Seq<AstV>|
                derives_items(ts, from, to, items),
        ),
    decreases ts.len() - pos, 12nat,
{
    let n = acc.len() as int;
    if is_at(ts, pos, TokenKind::RParen) || is_at(ts, pos, TokenKind::RBracket) {
        assert(acc.take(n) =~= acc);
        assert(acc.skip(n) =~= Seq::<AstV>::empty());
    } else {
        lemma_expr(ts, pos);
        match advance(parse_expr(ts, pos), ts, pos) {
            Some((e, p)) => {
                if is_at(ts, p, TokenKind::Comma) {
                    lemma_arguments(ts, p + 1, acc.push(e));
                    match parse_arguments(ts, p + 1, acc.push(e)) {
                        Some((items, q)) => {
                            let rest = items.skip(n);
                            assert(items.take(n + 1)[n] == e);
                            assert(rest[0] == e);
                            assert(rest.drop_first() =~= items.skip(n + 1));
                            assert(items.take(n) =~= items.take(n + 1).take(n));
                            assert(acc.push(e).take(n) =~= acc);
                            assert(is_at(ts, p, TokenKind::Comma) && derives(ts, pos, p, rest[0])
                                && derives_items(ts, p + 1, q, rest.drop_first()));
                        },
                        None => {},
                    }
                } else {
                    let items = acc.push(e);
                    assert(items.take(n) =~= acc);
                    assert(items.skip(n) =~= seq![e]);
                }
            },
            None => {},
        }
    }
}

/// The parser's statements are allowed by the productions.
proof fn lemma_statements(ts: Seq<LexemeV>, pos: nat, acc: Seq<AstV>)
    requires
        pos <= ts.len(),
    ensures
        sound_list(
            parse_statements(ts, pos, acc),
            ts,
            pos,
            acc,
            |ts: Seq<LexemeV>, from: nat, to: nat, items: Seq<AstV>|
                derives_statements(ts, from, to, items),
        ),
    decreases ts.len() - pos, 12nat,
{
    let n = acc.len() as int;
    if pos >= ts.len() || is_at(ts, pos, TokenKind::RBracket) {
        assert(acc.take(n) =~= acc);
        assert(acc.skip(n) =~= Seq::<AstV>::empty());
    } else {
        lemma_expr(ts, pos);
        match advance(parse_expr(ts, pos), ts, pos) {
            Some((e, p)) => {
                if is_at(ts, p, TokenKind::Semicolon) {
                    lemma_statements(ts, p + 1, acc.push(e));
                    match parse_statements(ts, p + 1, acc.push(e)) {
                        Some((items, q)) => {
                            let rest = items.skip(n);
                            assert(items.take(n + 1)[n] == e);
                            assert(rest[0] == e);
                            assert(rest.drop_first() =~= items.skip(n + 1));
                            assert(items.take(n) =~= items.take(n + 1).take(n));
                            assert(acc.push(e).take(n) =~= acc);
                            assert(is_at(ts, p, TokenKind::Semicolon) && derives(
                                ts,
                                pos,
                                p,
                                rest[0],
                            ) && derives_statements(ts, p + 1, q, rest.drop_first()));
                        },
                        None => {},
                    }
                }
            },
            None => {},
        }
    }
}

/// The parser's conditionals are allowed by the productions.
proof fn lemma_conditional(ts: Seq<LexemeV>, pos: nat)
    requires
        pos <= ts.len(),
    ensures
        match parse_conditional(ts, pos) {
            Some((ast, p)) => pos <= p <= ts.len() && derives_conditional(ts, pos, p, ast),
            None => true,
        },
    decreases ts.len() - pos, 12nat,
{
    if is_at(ts, pos, TokenKind::RBrace) {
    } else {
        lemma_expr(ts, pos);
        match advance(parse_expr(ts, pos), ts, pos) {
            Some((c, p)) => {
                if is_at(ts, p, TokenKind::Colon) {
                    lemma_expr(ts, p + 1);
                    match advance(parse_expr(ts, p + 1), ts, p + 1) {
                        Some((t, q)) => {
                            if is_at(ts, q, TokenKind::Comma) {
                                lemma_conditional(ts, q + 1);
                                match parse_conditional(ts, q + 1) {
                                    Some((rest, r)) => {
                                        assert(is_at(ts, q, TokenKind::Comma) && derives(
                                            ts,
                                            p + 1,
                                            q,
                                            t,
                                        ) && derives_conditional(ts, q + 1, r, rest));
                                        assert(is_at(ts, p, TokenKind::Colon) && derives(
                                            ts,
                                            pos,
                                            p,
                                            c,
                                        ));
                                    },
                                    None => {},
                                }
                            } else {
                                assert(is_at(ts, p, TokenKind::Colon) && derives(ts, pos, p, c)
                                    && derives(ts, p + 1, q, t));
                            }
                        },
                        None => {},
                    }
                }
            },
            None => {},
        }
    }
}

/// The parser's parameter names are allowed by the productions.
proof fn lemma_names(ts: Seq<LexemeV>, pos: nat, acc: Seq<Seq<char>>)
    requires
        pos <= ts.len(),
    ensures
        ({
            let (names, p) = parse_names(ts, pos, acc);
            &&& pos <= p <= ts.len()
            &&& names.len() >= acc.len()
            &&& names.take(acc.len() as int) == acc
            &&& derives_names(ts, pos, p, names.skip(acc.len() as int))
        }),
    decreases ts.len() - pos,
{
    let n = acc.len() as int;
    if is_at(ts, pos, TokenKind::Name) {
        let name = ts[pos as int].raw;
        if is_at(ts, pos + 1, TokenKind::Comma) {
            lemma_names(ts, pos + 2, acc.push(name));
            let (names, p) = parse_names(ts, pos + 2, acc.push(name));
            let rest = names.skip(n);
            assert(names.take(n + 1)[n] == name);
            assert(rest[0] == name);
            assert(rest.drop_first() =~= names.skip(n + 1));
            assert(names.take(n) =~= names.take(n + 1).take(n));
            assert(acc.push(name).take(n) =~= acc);
        } else {
            let names = acc.push(name);
            assert(names.take(n) =~= acc);
            assert(names.skip(n) =~= seq![name]);
            assert(names.skip(n).drop_first() =~= Seq::<Seq<char>>::empty());
        }
    } else {
        assert(acc.take(n) =~= acc);
        assert(acc.skip(n) =~= Seq::<Seq<char>>::empty());
    }
}

/// Soundness of the parser: the statements that it reads from the lexemes
/// of a program are statements that the productions allow for them.
pub proof fn law_parse_sound(ts: Seq<LexemeV>)
    ensures
        match parse_program(ts) {
            Some(program) => derives_program(ts, program),
            None => true,
        },
{
    let none = Seq::<AstV>::empty();
    lemma_statements(ts, 0, none);
    match parse_statements(ts, 0, none) {
        Some((es, p)) => {
            assert(es.skip(0) =~= es);
        },
        None => {},
    }
}

} // verus!
