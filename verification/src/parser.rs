//! The grammar of the language: from lexemes to syntax trees.
//!
//! A program is a sequence of expressions, each followed by a semicolon.
//! Binary operators bind, from the loosest to the tightest, as comparisons,
//! then `+ -`, then `* /`, then `% ^`, and associate to the left. An
//! assignment takes the longest expression that follows it and stands only
//! where a whole expression is expected. A loop and a function definition are
//! operands, and their body is the shortest expression that follows: one
//! operand, or the assignment of one. So `while c : a + 1` adds one to the
//! value of the loop; a longer body goes in brackets.

use vstd::prelude::*;
use crate::ast::{asts_view, lemma_asts_view, names_view, Ast, AstV, Forkop};
use crate::grammar::{derives_program, law_parse_sound};
use crate::lexer::{lexemes_view, Lexeme, LexemeV, TokenKind};
use crate::number::{decimal_value, float_parse_spec, is_signed_digits, Float, Integer};
use crate::rev;
use crate::value::{Value, ValueV, FLOATING_PRECISION};

verus! {

/// A node and the position behind it.
pub type Parsed = Option<(AstV, nat)>;

/// A list of nodes and the position behind it.
pub type ParsedList = Option<(Seq<AstV>, nat)>;

/// The category of the lexeme at `pos`, if there is one.
pub open spec fn kind_at(ts: Seq<LexemeV>, pos: nat) -> Option<TokenKind> {
    if pos < ts.len() {
        Some(ts[pos as int].kind)
    } else {
        None
    }
}

/// Whether a lexeme of the given category stands at `pos`.
pub open spec fn is_at(ts: Seq<LexemeV>, pos: nat, kind: TokenKind) -> bool {
    kind_at(ts, pos) == Some(kind)
}

/// The operator that a category writes at a level of precedence: level 0
/// holds the comparisons, level 1 `+ -`, level 2 `* /`, level 3 `% ^`.
pub open spec fn operator_of(kind: TokenKind, level: nat) -> Option<Forkop> {
    if level == 0 {
        match kind {
            TokenKind::Lte => Some(Forkop::Lte),
            TokenKind::Gte => Some(Forkop::Gte),
            TokenKind::Eql => Some(Forkop::Eql),
            TokenKind::Neq => Some(Forkop::Neq),
            TokenKind::Gt => Some(Forkop::Gt),
            TokenKind::Lt => Some(Forkop::Lt),
            _ => None,
        }
    } else if level == 1 {
        match kind {
            TokenKind::Plus => Some(Forkop::Add),
            TokenKind::Minus => Some(Forkop::Sub),
            _ => None,
        }
    } else if level == 2 {
        match kind {
            TokenKind::Star => Some(Forkop::Mul),
            TokenKind::Slash => Some(Forkop::Div),
            _ => None,
        }
    } else if level == 3 {
        match kind {
            TokenKind::Percent => Some(Forkop::Mod),
            TokenKind::Caret => Some(Forkop::Pow),
            _ => None,
        }
    } else {
        None
    }
}

/// The operator of the given level at `pos`, if one stands there.
pub open spec fn operator_at(ts: Seq<LexemeV>, pos: nat, level: nat) -> Option<Forkop> {
    match kind_at(ts, pos) {
        Some(kind) => operator_of(kind, level),
        None => None,
    }
}

/// A result that has moved on from `pos` and stays within the lexemes.
pub open spec fn advance(r: Parsed, ts: Seq<LexemeV>, pos: nat) -> Parsed {
    match r {
        Some((_, p)) => if pos < p && p <= ts.len() {
            r
        } else {
            None
        },
        None => None,
    }
}

/// The text of a string literal without its quotes.
pub open spec fn unquote(raw: Seq<char>) -> Seq<char> {
    if raw.len() >= 2 {
        raw.subrange(1, raw.len() - 1)
    } else {
        raw
    }
}

/// The literal `Nil`.
pub open spec fn null() -> AstV {
    AstV::Literal(ValueV::Nil)
}

/// An expression: an assignment, or an expression of binary operators.
pub open spec fn parse_expr(ts: Seq<LexemeV>, pos: nat) -> Parsed
    decreases ts.len() - pos, 10nat,
{
    if is_at(ts, pos, TokenKind::Name) && is_at(ts, pos + 1, TokenKind::Assign) {
        match parse_expr(ts, pos + 2) {
            Some((value, p)) => Some(
                (AstV::Assign { name: ts[pos as int].raw, value: Box::new(value) }, p),
            ),
            None => None,
        }
    } else {
        parse_binary(ts, pos, 0)
    }
}

/// The place of [`parse_binary`] at a level among the parsing functions
/// that start at one position.
pub open spec fn binary_rank(level: nat) -> nat {
    if level < 4 {
        (9 - level) as nat
    } else {
        5
    }
}

/// An expression of the operators of `level` and tighter ones.
pub open spec fn parse_binary(ts: Seq<LexemeV>, pos: nat, level: nat) -> Parsed
    decreases ts.len() - pos, binary_rank(level),
{
    if level >= 4 {
        parse_operand(ts, pos)
    } else {
        match advance(parse_binary(ts, pos, level + 1), ts, pos) {
            Some((left, p)) => parse_binary_rest(ts, p, level, left),
            None => None,
        }
    }
}

/// What follows a left operand at `level`: operators of that level, each
/// with a right operand of the tighter levels, taken from left to right.
pub open spec fn parse_binary_rest(ts: Seq<LexemeV>, pos: nat, level: nat, left: AstV) -> Parsed
    decreases ts.len() - pos, 0nat,
{
    match operator_at(ts, pos, level) {
        None => Some((left, pos)),
        Some(op) => match advance(parse_binary(ts, pos + 1, level + 1), ts, pos + 1) {
            Some((right, p)) => parse_binary_rest(
                ts,
                p,
                level,
                AstV::Fork { left: Box::new(left), right: Box::new(right), op },
            ),
            None => None,
        },
    }
}

/// The body of a loop or of a function definition: the assignment of a
/// body, or an operand.
pub open spec fn parse_body(ts: Seq<LexemeV>, pos: nat) -> Parsed
    decreases ts.len() - pos, 5nat,
{
    if is_at(ts, pos, TokenKind::Name) && is_at(ts, pos + 1, TokenKind::Assign) {
        match parse_body(ts, pos + 2) {
            Some((value, p)) => Some(
                (AstV::Assign { name: ts[pos as int].raw, value: Box::new(value) }, p),
            ),
            None => None,
        }
    } else {
        parse_operand(ts, pos)
    }
}

/// An operand: a loop, a function definition, or a primary expression.
pub open spec fn parse_operand(ts: Seq<LexemeV>, pos: nat) -> Parsed
    decreases ts.len() - pos, 4nat,
{
    if is_at(ts, pos, TokenKind::While) {
        match advance(parse_expr(ts, pos + 1), ts, pos + 1) {
            Some((cond, p)) => if is_at(ts, p, TokenKind::Colon) {
                match parse_body(ts, p + 1) {
                    Some((body, q)) => Some(
                        (AstV::While { cond: Box::new(cond), body: Box::new(body) }, q),
                    ),
                    None => None,
                }
            } else {
                None
            },
            None => None,
        }
    } else if is_at(ts, pos, TokenKind::Fn) {
        if is_at(ts, pos + 1, TokenKind::Name) && is_at(ts, pos + 2, TokenKind::LParen) {
            let (names, p) = parse_names(ts, pos + 3, Seq::<Seq<char>>::empty());
            if is_at(ts, p, TokenKind::RParen) && pos < p {
                match parse_body(ts, p + 1) {
                    Some((body, q)) => Some(
                        (
                            AstV::FunDef {
                                name: ts[(pos + 1) as int].raw,
                                args: names,
                                body: Box::new(body),
                            },
                            q,
                        ),
                    ),
                    None => None,
                }
            } else {
                None
            }
        } else {
            None
        }
    } else {
        parse_primary(ts, pos)
    }
}

/// A primary expression: one in parentheses, a name, a call, a list, a
/// block, a conditional, or a literal.
pub open spec fn parse_primary(ts: Seq<LexemeV>, pos: nat) -> Parsed
    decreases ts.len() - pos, 3nat,
{
    match kind_at(ts, pos) {
        None => None,
        Some(kind) => {
            let raw = ts[pos as int].raw;
            match kind {
                TokenKind::LParen => match parse_expr(ts, pos + 1) {
                    Some((e, p)) => if is_at(ts, p, TokenKind::RParen) {
                        Some((e, p + 1))
                    } else {
                        None
                    },
                    None => None,
                },
                TokenKind::Name => if is_at(ts, pos + 1, TokenKind::LParen) {
                    match parse_arguments(ts, pos + 2, Seq::<AstV>::empty()) {
                        Some((args, p)) => if is_at(ts, p, TokenKind::RParen) {
                            Some((AstV::Call { name: raw, with: args.reverse() }, p + 1))
                        } else {
                            None
                        },
                        None => None,
                    }
                } else {
                    Some((AstV::Get(raw), pos + 1))
                },
                TokenKind::Dollar => if is_at(ts, pos + 1, TokenKind::LBracket) {
                    match parse_arguments(ts, pos + 2, Seq::<AstV>::empty()) {
                        Some((args, p)) => if is_at(ts, p, TokenKind::RBracket) {
                            Some((AstV::VecLiteral(args), p + 1))
                        } else {
                            None
                        },
                        None => None,
                    }
                } else {
                    None
                },
                TokenKind::LBracket => match parse_statements(ts, pos + 1, Seq::<AstV>::empty()) {
                    Some((es, p)) => if is_at(ts, p, TokenKind::RBracket) {
                        Some((AstV::ExpressionList(es), p + 1))
                    } else {
                        None
                    },
                    None => None,
                },
                TokenKind::LBrace => match parse_conditional(ts, pos + 1) {
                    Some((c, p)) => if is_at(ts, p, TokenKind::RBrace) {
                        Some((c, p + 1))
                    } else {
                        None
                    },
                    None => None,
                },
                TokenKind::Str => Some((AstV::Literal(ValueV::String(unquote(raw))), pos + 1)),
                TokenKind::Integer => if is_signed_digits(raw) {
                    Some((AstV::Literal(ValueV::Integer(decimal_value(raw))), pos + 1))
                } else {
                    None
                },
                TokenKind::Float => match float_parse_spec(raw, FLOATING_PRECISION as nat) {
                    Some(f) => Some((AstV::Literal(ValueV::Float(f)), pos + 1)),
                    None => None,
                },
                _ => None,
            }
        },
    }
}

/// The arguments of a call or the items of a list, after those of `acc`:
/// expressions separated by commas, up to the closing bracket. A comma may
/// stand behind the last.
pub open spec fn parse_arguments(ts: Seq<LexemeV>, pos: nat, acc: Seq<AstV>) -> ParsedList
    decreases ts.len() - pos, 12nat,
{
    if is_at(ts, pos, TokenKind::RParen) || is_at(ts, pos, TokenKind::RBracket) {
        Some((acc, pos))
    } else {
        match advance(parse_expr(ts, pos), ts, pos) {
            Some((e, p)) => if is_at(ts, p, TokenKind::Comma) {
                parse_arguments(ts, p + 1, acc.push(e))
            } else {
                Some((acc.push(e), p))
            },
            None => None,
        }
    }
}

/// The expressions of a sequence, after those of `acc`: each followed by a
/// semicolon, up to a closing square bracket or the end.
pub open spec fn parse_statements(ts: Seq<LexemeV>, pos: nat, acc: Seq<AstV>) -> ParsedList
    decreases ts.len() - pos, 12nat,
{
    if pos >= ts.len() || is_at(ts, pos, TokenKind::RBracket) {
        Some((acc, pos))
    } else {
        match advance(parse_expr(ts, pos), ts, pos) {
            Some((e, p)) => if is_at(ts, p, TokenKind::Semicolon) {
                parse_statements(ts, p + 1, acc.push(e))
            } else {
                None
            },
            None => None,
        }
    }
}

/// The inside of a conditional: nothing; an expression; a condition, a colon
/// and a branch; or these followed by a comma and the inside of a further
/// conditional, which is the other branch.
pub open spec fn parse_conditional(ts: Seq<LexemeV>, pos: nat) -> Parsed
    decreases ts.len() - pos, 12nat,
{
    if is_at(ts, pos, TokenKind::RBrace) {
        Some((null(), pos))
    } else {
        match advance(parse_expr(ts, pos), ts, pos) {
            Some((c, p)) => if is_at(ts, p, TokenKind::Colon) {
                match advance(parse_expr(ts, p + 1), ts, p + 1) {
                    Some((t, q)) => if is_at(ts, q, TokenKind::Comma) {
                        match parse_conditional(ts, q + 1) {
                            Some((rest, r)) => Some(
                                (
                                    AstV::If {
                                        if_: Box::new(c),
                                        then_: Box::new(t),
                                        else_: Some(Box::new(rest)),
                                    },
                                    r,
                                ),
                            ),
                            None => None,
                        }
                    } else {
                        Some(
                            (
                                AstV::If {
                                    if_: Box::new(c),
                                    then_: Box::new(t),
                                    else_: Some(Box::new(null())),
                                },
                                q,
                            ),
                        )
                    },
                    None => None,
                }
            } else {
                Some((c, p))
            },
            None => None,
        }
    }
}

/// The parameter names of a definition, after those of `acc`: names
/// separated by commas. A comma may stand behind the last.
pub open spec fn parse_names(ts: Seq<LexemeV>, pos: nat, acc: Seq<Seq<char>>) -> (
    Seq<Seq<char>>,
    nat,
)
    decreases ts.len() - pos,
{
    if is_at(ts, pos, TokenKind::Name) {
        if is_at(ts, pos + 1, TokenKind::Comma) {
            parse_names(ts, pos + 2, acc.push(ts[pos as int].raw))
        } else {
            (acc.push(ts[pos as int].raw), pos + 1)
        }
    } else {
        (acc, pos)
    }
}

/// The statements of a program, if the lexemes make one.
pub open spec fn parse_program(ts: Seq<LexemeV>) -> Option<Seq<AstV>> {
    match parse_statements(ts, 0, Seq::<AstV>::empty()) {
        Some((es, p)) => if p == ts.len() {
            Some(es)
        } else {
            None
        },
        None => None,
    }
}

/// The content of what a parsing function returns.
pub open spec fn parsed_view(r: Option<(Ast, usize)>) -> Parsed {
    match r {
        Some((a, p)) => Some((a@, p as nat)),
        None => None,
    }
}

/// The content of what a parsing function for lists returns.
pub open spec fn parsed_list_view(r: Option<(Vec<Ast>, usize)>) -> ParsedList {
    match r {
        Some((a, p)) => Some((asts_view(a@), p as nat)),
        None => None,
    }
}

/// Whether a result lies behind `pos` and within the lexemes.
pub open spec fn moved_on<T>(r: Option<(T, usize)>, pos: usize, len: nat) -> bool {
    match r {
        Some((_, p)) => pos < p && p <= len,
        None => true,
    }
}

/// Whether a result lies at `pos` or behind it, and within the lexemes.
pub open spec fn not_behind<T>(r: Option<(T, usize)>, pos: usize, len: nat) -> bool {
    match r {
        Some((_, p)) => pos <= p && p <= len,
        None => true,
    }
}

/// The category of the lexeme at `pos`, if there is one.
fn token_at(ts: &Vec<Lexeme>, pos: usize) -> (r: Option<TokenKind>)
    ensures
        r == kind_at(lexemes_view(ts@), pos as nat),
        ts@.len() <= usize::MAX,
{
    if pos < ts.len() {
        Some(ts[pos].kind)
    } else {
        None
    }
}

/// Whether a lexeme of the given category stands at `pos`.
fn at(ts: &Vec<Lexeme>, pos: usize, kind: TokenKind) -> (r: bool)
    ensures
        r == is_at(lexemes_view(ts@), pos as nat, kind),
        r ==> pos < ts@.len(),
        ts@.len() <= usize::MAX,
{
    match token_at(ts, pos) {
        Some(k) => k == kind,
        None => false,
    }
}

/// The operator that a category writes at a level of precedence.
fn operator(kind: TokenKind, level: u8) -> (r: Option<Forkop>)
    ensures
        r == operator_of(kind, level as nat),
{
    if level == 0 {
        match kind {
            TokenKind::Lte => Some(Forkop::Lte),
            TokenKind::Gte => Some(Forkop::Gte),
            TokenKind::Eql => Some(Forkop::Eql),
            TokenKind::Neq => Some(Forkop::Neq),
            TokenKind::Gt => Some(Forkop::Gt),
            TokenKind::Lt => Some(Forkop::Lt),
            _ => None,
        }
    } else if level == 1 {
        match kind {
            TokenKind::Plus => Some(Forkop::Add),
            TokenKind::Minus => Some(Forkop::Sub),
            _ => None,
        }
    } else if level == 2 {
        match kind {
            TokenKind::Star => Some(Forkop::Mul),
            TokenKind::Slash => Some(Forkop::Div),
            _ => None,
        }
    } else if level == 3 {
        match kind {
            TokenKind::Percent => Some(Forkop::Mod),
            TokenKind::Caret => Some(Forkop::Pow),
            _ => None,
        }
    } else {
        None
    }
}

/// An expression at `pos`.
fn expr(ts: &Vec<Lexeme>, pos: usize) -> (r: Option<(Ast, usize)>)
    ensures
        parsed_view(r) == parse_expr(lexemes_view(ts@), pos as nat),
        moved_on(r, pos, ts@.len()),
    decreases ts@.len() - pos, 10nat,
{
    if at(ts, pos, TokenKind::Name) && at(ts, pos + 1, TokenKind::Assign) {
        match expr(ts, pos + 2) {
            Some((value, p)) => Some(
                (Ast::Assign { name: ts[pos].raw.clone(), value: Box::new(value) }, p),
            ),
            None => None,
        }
    } else {
        binary(ts, pos, 0)
    }
}

/// An expression of the operators of `level` and tighter ones at `pos`.
fn binary(ts: &Vec<Lexeme>, pos: usize, level: u8) -> (r: Option<(Ast, usize)>)
    ensures
        parsed_view(r) == parse_binary(lexemes_view(ts@), pos as nat, level as nat),
        moved_on(r, pos, ts@.len()),
    decreases ts@.len() - pos, binary_rank(level as nat),
{
    if level >= 4 {
        return operand(ts, pos);
    }
    let (first, start) = match binary(ts, pos, level + 1) {
        Some(found) => found,
        None => {
            return None;
        },
    };
    let len = ts.len();
    let mut left = first;
    let mut p = start;
    let ghost tsv = lexemes_view(ts@);
    let ghost total = parse_binary_rest(tsv, start as nat, level as nat, first@);
    loop
        invariant
            tsv == lexemes_view(ts@),
            level < 4,
            pos < p <= ts@.len(),
            ts@.len() <= usize::MAX,
            total == parse_binary(tsv, pos as nat, level as nat),
            parse_binary_rest(tsv, p as nat, level as nat, left@) == total,
        decreases ts@.len() - p,
    {
        let op = match token_at(ts, p) {
            Some(kind) => operator(kind, level),
            None => None,
        };
        match op {
            None => {
                return Some((left, p));
            },
            Some(op) => {
                match binary(ts, p + 1, level + 1) {
                    Some((right, q)) => {
                        left = Ast::Fork { left: Box::new(left), right: Box::new(right), op };
                        p = q;
                    },
                    None => {
                        return None;
                    },
                }
            },
        }
    }
}

/// The body of a loop or of a function definition at `pos`.
fn body(ts: &Vec<Lexeme>, pos: usize) -> (r: Option<(Ast, usize)>)
    ensures
        parsed_view(r) == parse_body(lexemes_view(ts@), pos as nat),
        moved_on(r, pos, ts@.len()),
    decreases ts@.len() - pos, 5nat,
{
    if at(ts, pos, TokenKind::Name) && at(ts, pos + 1, TokenKind::Assign) {
        match body(ts, pos + 2) {
            Some((value, p)) => Some(
                (Ast::Assign { name: ts[pos].raw.clone(), value: Box::new(value) }, p),
            ),
            None => None,
        }
    } else {
        operand(ts, pos)
    }
}

/// An operand at `pos`.
fn operand(ts: &Vec<Lexeme>, pos: usize) -> (r: Option<(Ast, usize)>)
    ensures
        parsed_view(r) == parse_operand(lexemes_view(ts@), pos as nat),
        moved_on(r, pos, ts@.len()),
    decreases ts@.len() - pos, 4nat,
{
    if at(ts, pos, TokenKind::While) {
        let (cond, p) = match expr(ts, pos + 1) {
            Some(found) => found,
            None => {
                return None;
            },
        };
        if !at(ts, p, TokenKind::Colon) {
            return None;
        }
        match body(ts, p + 1) {
            Some((body, q)) => Some((Ast::While { cond: Box::new(cond), body: Box::new(body) }, q)),
            None => None,
        }
    } else if at(ts, pos, TokenKind::Fn) {
        if !(at(ts, pos + 1, TokenKind::Name) && at(ts, pos + 2, TokenKind::LParen)) {
            return None;
        }
        let (args, p) = names(ts, pos + 3);
        if !at(ts, p, TokenKind::RParen) {
            return None;
        }
        match body(ts, p + 1) {
            Some((body, q)) => Some(
                (Ast::FunDef { name: ts[pos + 1].raw.clone(), args, body: Box::new(body) }, q),
            ),
            None => None,
        }
    } else {
        primary(ts, pos)
    }
}

/// A primary expression at `pos`.
fn primary(ts: &Vec<Lexeme>, pos: usize) -> (r: Option<(Ast, usize)>)
    ensures
        parsed_view(r) == parse_primary(lexemes_view(ts@), pos as nat),
        moved_on(r, pos, ts@.len()),
    decreases ts@.len() - pos, 3nat,
{
    let kind = match token_at(ts, pos) {
        Some(kind) => kind,
        None => {
            return None;
        },
    };
    let raw = &ts[pos].raw;
    match kind {
        TokenKind::LParen => {
            match expr(ts, pos + 1) {
                Some((e, p)) => {
                    if at(ts, p, TokenKind::RParen) {
                        Some((e, p + 1))
                    } else {
                        None
                    }
                },
                None => None,
            }
        },
        TokenKind::Name => {
            if at(ts, pos + 1, TokenKind::LParen) {
                match arguments(ts, pos + 2) {
                    Some((args, p)) => {
                        if at(ts, p, TokenKind::RParen) {
                            let ghost held = args@;
                            let with = rev(args);
                            proof {
                                lemma_asts_view(held);
                                lemma_asts_view(with@);
                                assert(asts_view(with@) =~= asts_view(held).reverse());
                            }
                            Some((Ast::Call { name: raw.clone(), with }, p + 1))
                        } else {
                            None
                        }
                    },
                    None => None,
                }
            } else {
                Some((Ast::Get(raw.clone()), pos + 1))
            }
        },
        TokenKind::Dollar => {
            if !at(ts, pos + 1, TokenKind::LBracket) {
                return None;
            }
            match arguments(ts, pos + 2) {
                Some((args, p)) => {
                    if at(ts, p, TokenKind::RBracket) {
                        Some((Ast::VecLiteral(args), p + 1))
                    } else {
                        None
                    }
                },
                None => None,
            }
        },
        TokenKind::LBracket => {
            match statements(ts, pos + 1) {
                Some((es, p)) => {
                    if at(ts, p, TokenKind::RBracket) {
                        Some((Ast::ExpressionList(es), p + 1))
                    } else {
                        None
                    }
                },
                None => None,
            }
        },
        TokenKind::LBrace => {
            match conditional(ts, pos + 1) {
                Some((c, p)) => {
                    if at(ts, p, TokenKind::RBrace) {
                        Some((c, p + 1))
                    } else {
                        None
                    }
                },
                None => None,
            }
        },
        TokenKind::Str => {
            let n = raw.as_str().unicode_len();
            let text = if n >= 2 {
                String::from_str(raw.as_str().substring_char(1, n - 1))
            } else {
                raw.clone()
            };
            Some((Ast::Literal(Value::String(text)), pos + 1))
        },
        TokenKind::Integer => {
            match Integer::parse(raw.as_str()) {
                Some(i) => Some((Ast::Literal(Value::Integer(i)), pos + 1)),
                None => None,
            }
        },
        TokenKind::Float => {
            match Float::parse(raw.as_str(), FLOATING_PRECISION as usize) {
                Some(f) => Some((Ast::Literal(Value::Float(f)), pos + 1)),
                None => None,
            }
        },
        _ => None,
    }
}

/// The arguments of a call or the items of a list from `pos` on.
fn arguments(ts: &Vec<Lexeme>, pos: usize) -> (r: Option<(Vec<Ast>, usize)>)
    requires
        pos <= ts@.len(),
    ensures
        parsed_list_view(r) == parse_arguments(
            lexemes_view(ts@),
            pos as nat,
            Seq::<AstV>::empty(),
        ),
        not_behind(r, pos, ts@.len()),
    decreases ts@.len() - pos, 12nat,
{
    let len = ts.len();
    let mut acc: Vec<Ast> = Vec::new();
    let mut p = pos;
    let ghost tsv = lexemes_view(ts@);
    let ghost total = parse_arguments(tsv, pos as nat, Seq::<AstV>::empty());
    proof {
        assert(asts_view(acc@) =~= Seq::<AstV>::empty());
    }
    loop
        invariant
            tsv == lexemes_view(ts@),
            pos <= p <= ts@.len(),
            ts@.len() <= usize::MAX,
            total == parse_arguments(tsv, pos as nat, Seq::<AstV>::empty()),
            parse_arguments(tsv, p as nat, asts_view(acc@)) == total,
        decreases ts@.len() - p,
    {
        if at(ts, p, TokenKind::RParen) || at(ts, p, TokenKind::RBracket) {
            return Some((acc, p));
        }
        match expr(ts, p) {
            Some((e, q)) => {
                let ghost before = asts_view(acc@);
                acc.push(e);
                proof {
                    lemma_asts_view(acc@);
                    assert(asts_view(acc@) =~= before.push(e@));
                }
                if at(ts, q, TokenKind::Comma) {
                    p = q + 1;
                } else {
                    return Some((acc, q));
                }
            },
            None => {
                return None;
            },
        }
    }
}

/// The expressions of a sequence from `pos` on.
fn statements(ts: &Vec<Lexeme>, pos: usize) -> (r: Option<(Vec<Ast>, usize)>)
    requires
        pos <= ts@.len(),
    ensures
        parsed_list_view(r) == parse_statements(
            lexemes_view(ts@),
            pos as nat,
            Seq::<AstV>::empty(),
        ),
        not_behind(r, pos, ts@.len()),
    decreases ts@.len() - pos, 12nat,
{
    let len = ts.len();
    let mut acc: Vec<Ast> = Vec::new();
    let mut p = pos;
    let ghost tsv = lexemes_view(ts@);
    let ghost total = parse_statements(tsv, pos as nat, Seq::<AstV>::empty());
    proof {
        assert(asts_view(acc@) =~= Seq::<AstV>::empty());
    }
    loop
        invariant
            tsv == lexemes_view(ts@),
            pos <= p <= ts@.len(),
            ts@.len() <= usize::MAX,
            total == parse_statements(tsv, pos as nat, Seq::<AstV>::empty()),
            parse_statements(tsv, p as nat, asts_view(acc@)) == total,
        decreases ts@.len() - p,
    {
        if p >= ts.len() || at(ts, p, TokenKind::RBracket) {
            return Some((acc, p));
        }
        match expr(ts, p) {
            Some((e, q)) => {
                let ghost before = asts_view(acc@);
                acc.push(e);
                proof {
                    lemma_asts_view(acc@);
                    assert(asts_view(acc@) =~= before.push(e@));
                }
                if at(ts, q, TokenKind::Semicolon) {
                    p = q + 1;
                } else {
                    return None;
                }
            },
            None => {
                return None;
            },
        }
    }
}

/// The inside of a conditional at `pos`.
fn conditional(ts: &Vec<Lexeme>, pos: usize) -> (r: Option<(Ast, usize)>)
    requires
        pos <= ts@.len(),
    ensures
        parsed_view(r) == parse_conditional(lexemes_view(ts@), pos as nat),
        not_behind(r, pos, ts@.len()),
    decreases ts@.len() - pos, 12nat,
{
    if at(ts, pos, TokenKind::RBrace) {
        return Some((Ast::null(), pos));
    }
    let (c, p) = match expr(ts, pos) {
        Some(found) => found,
        None => {
            return None;
        },
    };
    if !at(ts, p, TokenKind::Colon) {
        return Some((c, p));
    }
    let (t, q) = match expr(ts, p + 1) {
        Some(found) => found,
        None => {
            return None;
        },
    };
    if at(ts, q, TokenKind::Comma) {
        match conditional(ts, q + 1) {
            Some((rest, r)) => Some(
                (
                    Ast::If { if_: Box::new(c), then_: Box::new(t), else_: Some(Box::new(rest)) },
                    r,
                ),
            ),
            None => None,
        }
    } else {
        Some(
            (
                Ast::If {
                    if_: Box::new(c),
                    then_: Box::new(t),
                    else_: Some(Ast::null().boxed()),
                },
                q,
            ),
        )
    }
}

/// The parameter names of a definition from `pos` on.
fn names(ts: &Vec<Lexeme>, pos: usize) -> (r: (Vec<String>, usize))
    requires
        pos <= ts@.len(),
    ensures
        (names_view(r.0@), r.1 as nat) == parse_names(
            lexemes_view(ts@),
            pos as nat,
            Seq::<Seq<char>>::empty(),
        ),
        pos <= r.1 <= ts@.len(),
{
    let len = ts.len();
    let mut acc: Vec<String> = Vec::new();
    let mut p = pos;
    let ghost tsv = lexemes_view(ts@);
    let ghost total = parse_names(tsv, pos as nat, Seq::<Seq<char>>::empty());
    proof {
        assert(names_view(acc@) =~= Seq::<Seq<char>>::empty());
    }
    loop
        invariant
            tsv == lexemes_view(ts@),
            pos <= p <= ts@.len(),
            ts@.len() <= usize::MAX,
            total == parse_names(tsv, pos as nat, Seq::<Seq<char>>::empty()),
            parse_names(tsv, p as nat, names_view(acc@)) == total,
        decreases ts@.len() - p,
    {
        if !at(ts, p, TokenKind::Name) {
            return (acc, p);
        }
        let ghost before = names_view(acc@);
        acc.push(ts[p].raw.clone());
        proof {
            assert(names_view(acc@) =~= before.push(tsv[p as int].raw));
        }
        if at(ts, p + 1, TokenKind::Comma) {
            p = p + 2;
        } else {
            return (acc, p + 1);
        }
    }
}

/// Reads a program: a sequence of expressions, each followed by a semicolon.
/// The result holds the statements in the order of the text, or nothing
/// where the lexemes make no program. The statements are such as the
/// productions of the language allow for the lexemes.
pub fn parse(lexemes: &Vec<Lexeme>) -> (r: Option<Vec<Ast>>)
    ensures
        match r {
            Some(program) => parse_program(lexemes_view(lexemes@)) == Some(asts_view(program@))
                && derives_program(lexemes_view(lexemes@), asts_view(program@)),
            None => parse_program(lexemes_view(lexemes@)) is None,
        },
{
    proof {
        law_parse_sound(lexemes_view(lexemes@));
    }
    match statements(lexemes, 0) {
        Some((es, p)) => {
            if p == lexemes.len() {
                Some(es)
            } else {
                None
            }
        },
        None => None,
    }
}

} // verus!
