//! The lexer: the rules that cut a program text into lexemes, and the engine
//! that applies them.
//!
//! At every position each rule of the table is tried. The rule with the
//! longest match wins, the first of the table among equals; its match becomes
//! a lexeme or, for comments and white space, is skipped.

use vstd::prelude::*;
use vstd::std_specs::iter::IteratorSpec;
use crate::number::is_digit;

verus! {

/// The categories of lexemes.
#[derive(Debug, Clone, Copy, Hash, PartialEq, Eq, Structural)]
pub enum TokenKind {
    /// A string literal in double quotes.
    Str,
    /// A run of digits.
    Integer,
    /// Digits with a decimal point.
    Float,
    /// An identifier.
    Name,
    /// The keyword `fn`.
    Fn,
    /// The keyword `while`.
    While,
    /// `=`
    Assign,
    /// `+`
    Plus,
    /// `-`
    Minus,
    /// `*`
    Star,
    /// `/`
    Slash,
    /// `^`
    Caret,
    /// `%`
    Percent,
    /// `<`
    Lt,
    /// `>`
    Gt,
    /// `<=`
    Lte,
    /// `>=`
    Gte,
    /// `==`
    Eql,
    /// `!=`
    Neq,
    /// `:`
    Colon,
    /// `,`
    Comma,
    /// `(`
    LParen,
    /// `)`
    RParen,
    /// `{`
    LBrace,
    /// `}`
    RBrace,
    /// `[`
    LBracket,
    /// `]`
    RBracket,
    /// `$`
    Dollar,
    /// `;`
    Semicolon,
}

/// A piece of the program text with its category.
#[derive(Debug, PartialEq, Eq)]
pub struct Lexeme {
    pub kind: TokenKind,
    pub raw: String,
}

/// The mathematical content of a [`Lexeme`].
pub struct LexemeV {
    pub kind: TokenKind,
    pub raw: Seq<char>,
}

impl View for Lexeme {
    type V = LexemeV;

    open spec fn view(&self) -> LexemeV {
        LexemeV { kind: self.kind, raw: self.raw@ }
    }
}

/// The contents of a list of lexemes.
pub open spec fn lexemes_view(lexemes: Seq<Lexeme>) -> Seq<LexemeV> {
    Seq::new(lexemes.len(), |i: int| lexemes[i]@)
}

/// The shapes of text that a rule can ask for.
#[derive(Debug, PartialEq, Eq)]
pub enum Pattern {
    /// Exactly the given characters.
    Exact(Vec<char>),
    /// A double quote, any characters but a double quote, a double quote.
    Quoted,
    /// Two slashes and the rest of the line.
    LineComment,
    /// From `/*` to the last `*/` of the text.
    BlockComment,
    /// One or more digits.
    Digits,
    /// Digits, a point, digits.
    Decimal,
    /// A point, digits.
    Fraction,
    /// A letter or an underscore, then letters, digits and underscores.
    Name,
    /// One character of white space.
    Space,
}

/// The mathematical content of a [`Pattern`].
pub enum PatternV {
    Exact(Seq<char>),
    Quoted,
    LineComment,
    BlockComment,
    Digits,
    Decimal,
    Fraction,
    Name,
    Space,
}

impl View for Pattern {
    type V = PatternV;

    open spec fn view(&self) -> PatternV {
        match self {
            Pattern::Exact(s) => PatternV::Exact(s@),
            Pattern::Quoted => PatternV::Quoted,
            Pattern::LineComment => PatternV::LineComment,
            Pattern::BlockComment => PatternV::BlockComment,
            Pattern::Digits => PatternV::Digits,
            Pattern::Decimal => PatternV::Decimal,
            Pattern::Fraction => PatternV::Fraction,
            Pattern::Name => PatternV::Name,
            Pattern::Space => PatternV::Space,
        }
    }
}

/// A rule of the lexer: a pattern and the category of the lexeme that a
/// match makes, or none where the match is skipped.
#[derive(Debug, PartialEq, Eq)]
pub struct LexerRule {
    pub kind: Option<TokenKind>,
    pub pattern: Pattern,
}

/// The mathematical content of a [`LexerRule`].
pub struct RuleV {
    pub kind: Option<TokenKind>,
    pub pattern: PatternV,
}

impl View for LexerRule {
    type V = RuleV;

    open spec fn view(&self) -> RuleV {
        RuleV { kind: self.kind, pattern: self.pattern@ }
    }
}

/// The table of rules, in the order of their priority.
#[derive(Debug, PartialEq, Eq)]
pub struct LexerRules {
    pub rules: Vec<LexerRule>,
}

impl View for LexerRules {
    type V = Seq<RuleV>;

    open spec fn view(&self) -> Seq<RuleV> {
        Seq::new(self.rules@.len(), |i: int| self.rules@[i]@)
    }
}

/// The place where no rule matches: the number of characters before it.
#[derive(Debug, PartialEq, Eq)]
pub struct LexerError {
    pub at: usize,
}

/// The classes of characters that the patterns speak of.
#[derive(Debug, Clone, Copy, PartialEq, Eq, Structural)]
pub enum CharClass {
    /// The digits `0` to `9`.
    Digit,
    /// Letters, digits and the underscore.
    NameChar,
    /// Everything but the double quote.
    NotQuote,
    /// Everything but the line feed.
    NotNewline,
}

/// Whether `c` is an ASCII letter or the underscore.
pub open spec fn is_name_start(c: char) -> bool {
    ('a' <= c && c <= 'z') || ('A' <= c && c <= 'Z') || c == '_'
}

/// Whether `c` is white space: a character with the Unicode property
/// `White_Space`.
pub open spec fn is_space(c: char) -> bool {
    ('\u{9}' <= c && c <= '\u{d}') || c == ' ' || c == '\u{85}' || c == '\u{a0}' || c == '\u{1680}'
        || ('\u{2000}' <= c && c <= '\u{200a}') || c == '\u{2028}' || c == '\u{2029}' || c
        == '\u{202f}' || c == '\u{205f}' || c == '\u{3000}'
}

/// Whether `c` belongs to the class.
pub open spec fn in_class(class: CharClass, c: char) -> bool {
    match class {
        CharClass::Digit => is_digit(c),
        CharClass::NameChar => is_name_start(c) || is_digit(c),
        CharClass::NotQuote => c != '"',
        CharClass::NotNewline => c != '\n',
    }
}

/// The end of the longest run of characters of a class that starts at
/// `from`.
pub open spec fn run_end(s: Seq<char>, from: nat, class: CharClass) -> nat
    decreases s.len() - from,
{
    if from < s.len() && in_class(class, s[from as int]) {
        run_end(s, from + 1, class)
    } else {
        from
    }
}

/// Whether the characters of `lit` stand in `s` at `pos`.
pub open spec fn starts_with_at(s: Seq<char>, pos: nat, lit: Seq<char>) -> bool {
    pos + lit.len() <= s.len() && s.subrange(pos as int, (pos + lit.len()) as int) == lit
}

/// Whether `*/` stands in `s` at `j`.
pub open spec fn closes_at(s: Seq<char>, j: nat) -> bool {
    j + 1 < s.len() && s[j as int] == '*' && s[(j + 1) as int] == '/'
}

/// The end of the last `*/` that starts at `from` or after it and at `upto`
/// or before it.
pub open spec fn last_close(s: Seq<char>, from: nat, upto: nat) -> Option<nat>
    decreases upto,
{
    if upto < from {
        None
    } else if closes_at(s, upto) {
        Some(upto + 2)
    } else if upto == 0 {
        None
    } else {
        last_close(s, from, (upto - 1) as nat)
    }
}

/// The end of the match of a pattern that starts at `pos`, if it matches
/// there.
pub open spec fn pattern_end(p: PatternV, s: Seq<char>, pos: nat) -> Option<nat> {
    match p {
        PatternV::Exact(lit) => if starts_with_at(s, pos, lit) {
            Some(pos + lit.len())
        } else {
            None
        },
        PatternV::Quoted => {
            let end = run_end(s, pos + 1, CharClass::NotQuote);
            if pos < s.len() && s[pos as int] == '"' && end < s.len() {
                Some(end + 1)
            } else {
                None
            }
        },
        PatternV::LineComment => if starts_with_at(s, pos, seq!['/', '/']) {
            Some(run_end(s, pos + 2, CharClass::NotNewline))
        } else {
            None
        },
        PatternV::BlockComment => if starts_with_at(s, pos, seq!['/', '*']) && s.len() >= 2 {
            last_close(s, pos + 2, (s.len() - 2) as nat)
        } else {
            None
        },
        PatternV::Digits => {
            let end = run_end(s, pos, CharClass::Digit);
            if end > pos {
                Some(end)
            } else {
                None
            }
        },
        PatternV::Decimal => {
            let point = run_end(s, pos, CharClass::Digit);
            let end = run_end(s, point + 1, CharClass::Digit);
            if point > pos && point < s.len() && s[point as int] == '.' && end > point + 1 {
                Some(end)
            } else {
                None
            }
        },
        PatternV::Fraction => {
            let end = run_end(s, pos + 1, CharClass::Digit);
            if pos < s.len() && s[pos as int] == '.' && end > pos + 1 {
                Some(end)
            } else {
                None
            }
        },
        PatternV::Name => if pos < s.len() && is_name_start(s[pos as int]) {
            Some(run_end(s, pos + 1, CharClass::NameChar))
        } else {
            None
        },
        PatternV::Space => if pos < s.len() && is_space(s[pos as int]) {
            Some(pos + 1)
        } else {
            None
        },
    }
}

/// The winner among the first `n` rules at `pos`: the index of the rule and
/// the end of its match. A later rule wins only with a longer match.
pub open spec fn best_match(rules: Seq<RuleV>, n: nat, s: Seq<char>, pos: nat) -> Option<(nat, nat)>
    decreases n,
{
    if n == 0 {
        None
    } else {
        let earlier = best_match(rules, (n - 1) as nat, s, pos);
        match pattern_end(rules[n - 1].pattern, s, pos) {
            None => earlier,
            Some(end) => match earlier {
                None => Some(((n - 1) as nat, end)),
                Some((_, best)) => if end > best {
                    Some(((n - 1) as nat, end))
                } else {
                    earlier
                },
            },
        }
    }
}

/// The lexemes of the text from `pos` on, after those of `acc`; or the place
/// where no rule matches.
pub open spec fn lex_from(rules: Seq<RuleV>, s: Seq<char>, pos: nat, acc: Seq<LexemeV>) -> Result<
    Seq<LexemeV>,
    nat,
>
    decreases s.len() - pos,
{
    if pos >= s.len() {
        Ok(acc)
    } else {
        match best_match(rules, rules.len(), s, pos) {
            None => Err(pos),
            Some((i, end)) => if end <= pos || end > s.len() {
                Err(pos)
            } else {
                match rules[i as int].kind {
                    Some(kind) => lex_from(
                        rules,
                        s,
                        end,
                        acc.push(LexemeV { kind, raw: s.subrange(pos as int, end as int) }),
                    ),
                    None => lex_from(rules, s, end, acc),
                }
            },
        }
    }
}

/// The lexemes of a text under the rules, or the place where no rule
/// matches.
pub open spec fn lex_spec(rules: Seq<RuleV>, s: Seq<char>) -> Result<Seq<LexemeV>, nat> {
    lex_from(rules, s, 0, Seq::<LexemeV>::empty())
}

/// The rules of the language, in the order of their priority.
pub open spec fn rules_spec() -> Seq<RuleV> {
    Seq::<RuleV>::empty().push(token_rule(TokenKind::Str, PatternV::Quoted)).push(
        skip_rule(PatternV::LineComment),
    ).push(skip_rule(PatternV::BlockComment)).push(
        token_rule(TokenKind::Integer, PatternV::Digits),
    ).push(token_rule(TokenKind::Float, PatternV::Decimal)).push(
        token_rule(TokenKind::Float, PatternV::Fraction),
    ).push(exact_rule(TokenKind::Assign, "="@)).push(exact_rule(TokenKind::Plus, "+"@)).push(
        exact_rule(TokenKind::Minus, "-"@),
    ).push(exact_rule(TokenKind::Star, "*"@)).push(exact_rule(TokenKind::Slash, "/"@)).push(
        exact_rule(TokenKind::Caret, "^"@),
    ).push(exact_rule(TokenKind::Percent, "%"@)).push(exact_rule(TokenKind::Lt, "<"@)).push(
        exact_rule(TokenKind::Gt, ">"@),
    ).push(exact_rule(TokenKind::Lte, "<="@)).push(exact_rule(TokenKind::Gte, ">="@)).push(
        exact_rule(TokenKind::Eql, "=="@),
    ).push(exact_rule(TokenKind::Neq, "!="@)).push(exact_rule(TokenKind::Colon, ":"@)).push(
        exact_rule(TokenKind::Comma, ","@),
    ).push(exact_rule(TokenKind::LParen, "("@)).push(exact_rule(TokenKind::RParen, ")"@)).push(
        exact_rule(TokenKind::LBrace, "{"@),
    ).push(exact_rule(TokenKind::RBrace, "}"@)).push(exact_rule(TokenKind::LBracket, "["@)).push(
        exact_rule(TokenKind::RBracket, "]"@),
    ).push(exact_rule(TokenKind::Fn, "fn"@)).push(exact_rule(TokenKind::Dollar, "$"@)).push(
        exact_rule(TokenKind::Semicolon, ";"@),
    ).push(exact_rule(TokenKind::While, "while"@)).push(
        token_rule(TokenKind::Name, PatternV::Name),
    ).push(skip_rule(PatternV::Space))
}

/// A rule whose match makes a lexeme.
pub open spec fn token_rule(kind: TokenKind, pattern: PatternV) -> RuleV {
    RuleV { kind: Some(kind), pattern }
}

/// A rule whose match is skipped.
pub open spec fn skip_rule(pattern: PatternV) -> RuleV {
    RuleV { kind: None, pattern }
}

/// A rule for a fixed spelling.
pub open spec fn exact_rule(kind: TokenKind, spelling: Seq<char>) -> RuleV {
    RuleV { kind: Some(kind), pattern: PatternV::Exact(spelling) }
}

/// The characters of a text.
pub fn chars_of(text: &str) -> (r: Vec<char>)
    ensures
        r@ == text@,
{
    broadcast use vstd::string::group_string_axioms;

    let mut out: Vec<char> = Vec::new();
    let mut it = text.chars();
    loop
        invariant_except_break
            out@ + IteratorSpec::remaining(&it) == text@,
        ensures
            out@ == text@,
        decreases text@.len() - out@.len(),
    {
        match it.next() {
            Some(c) => {
                out.push(c);
                assert(out@ + IteratorSpec::remaining(&it) =~= text@);
            },
            None => {
                assert(out@ =~= text@);
                break ;
            },
        }
    }
    out
}

/// The text of the characters from `from` up to `to`.
pub fn text_of(chars: &Vec<char>, from: usize, to: usize) -> (r: String)
    requires
        from <= to <= chars@.len(),
    ensures
        r@ == chars@.subrange(from as int, to as int),
{
    let mut out = String::new();
    let mut i: usize = from;
    proof {
        assert(chars@.subrange(from as int, from as int) =~= Seq::<char>::empty());
    }
    while i < to
        invariant
            from <= i <= to,
            to <= chars@.len(),
            out@ == chars@.subrange(from as int, i as int),
        decreases to - i,
    {
        push_char(&mut out, chars[i]);
        assert(out@ =~= chars@.subrange(from as int, i + 1));
        i += 1;
    }
    out
}

/// Appends a character with `String::push`.
#[verifier::external_body]
fn push_char(s: &mut String, c: char)
    ensures
        final(s)@ == old(s)@.push(c),
{
    s.push(c)
}

/// Whether `c` is an ASCII letter or the underscore.
fn name_start(c: char) -> (r: bool)
    ensures
        r == is_name_start(c),
{
    (c >= 'a' && c <= 'z') || (c >= 'A' && c <= 'Z') || c == '_'
}

/// Whether `c` is white space.
fn space(c: char) -> (r: bool)
    ensures
        r == is_space(c),
{
    (c >= '\u{9}' && c <= '\u{d}') || c == ' ' || c == '\u{85}' || c == '\u{a0}' || c == '\u{1680}'
        || (c >= '\u{2000}' && c <= '\u{200a}') || c == '\u{2028}' || c == '\u{2029}' || c
        == '\u{202f}' || c == '\u{205f}' || c == '\u{3000}'
}

/// Whether `c` belongs to the class.
fn class_has(class: CharClass, c: char) -> (r: bool)
    ensures
        r == in_class(class, c),
{
    match class {
        CharClass::Digit => c >= '0' && c <= '9',
        CharClass::NameChar => name_start(c) || (c >= '0' && c <= '9'),
        CharClass::NotQuote => c != '"',
        CharClass::NotNewline => c != '\n',
    }
}

/// The end of the longest run of characters of a class that starts at
/// `from`.
fn scan_run(chars: &Vec<char>, from: usize, class: CharClass) -> (r: usize)
    ensures
        r == run_end(chars@, from as nat, class),
        from <= r,
        from <= chars@.len() ==> r <= chars@.len(),
{
    let mut i: usize = from;
    while i < chars.len() && class_has(class, chars[i])
        invariant
            from <= i,
            from <= chars@.len() ==> i <= chars@.len(),
            run_end(chars@, i as nat, class) == run_end(chars@, from as nat, class),
        decreases chars@.len() - i,
    {
        i += 1;
    }
    i
}

/// Whether the characters of `lit` stand in `chars` at `pos`.
fn starts_with(chars: &Vec<char>, pos: usize, lit: &Vec<char>) -> (r: bool)
    requires
        pos <= chars@.len(),
    ensures
        r == starts_with_at(chars@, pos as nat, lit@),
{
    if lit.len() > chars.len() - pos {
        return false;
    }
    let mut i: usize = 0;
    while i < lit.len()
        invariant
            i <= lit@.len(),
            pos + lit@.len() <= chars@.len(),
            chars@.len() <= usize::MAX,
            forall|j: int| 0 <= j < i ==> chars@[pos + j] == lit@[j],
        decreases lit@.len() - i,
    {
        if chars[pos + i] != lit[i] {
            assert(chars@.subrange(pos as int, pos + lit@.len())[i as int] != lit@[i as int]);
            return false;
        }
        i += 1;
    }
    assert(chars@.subrange(pos as int, pos + lit@.len()) =~= lit@);
    true
}

/// The end of the last `*/` that starts at `from` or after it.
fn scan_last_close(chars: &Vec<char>, from: usize) -> (r: Option<usize>)
    requires
        chars@.len() >= 2,
    ensures
        match r {
            Some(end) => last_close(chars@, from as nat, (chars@.len() - 2) as nat) == Some(
                end as nat,
            ) && from + 2 <= end <= chars@.len(),
            None => last_close(chars@, from as nat, (chars@.len() - 2) as nat) is None,
        },
{
    let mut j: usize = chars.len() - 2;
    loop
        invariant
            j + 2 <= chars@.len(),
            chars@.len() <= usize::MAX,
            last_close(chars@, from as nat, j as nat) == last_close(
                chars@,
                from as nat,
                (chars@.len() - 2) as nat,
            ),
        decreases j,
    {
        if j < from {
            return None;
        }
        if chars[j] == '*' && chars[j + 1] == '/' {
            return Some(j + 2);
        }
        if j == 0 {
            return None;
        }
        j -= 1;
    }
}

/// The end of the match of a pattern that starts at `pos`, if it matches
/// there.
fn match_pattern(p: &Pattern, chars: &Vec<char>, pos: usize) -> (r: Option<usize>)
    requires
        pos < chars@.len(),
    ensures
        match r {
            Some(end) => pattern_end(p@, chars@, pos as nat) == Some(end as nat) && end
                <= chars@.len(),
            None => pattern_end(p@, chars@, pos as nat) is None,
        },
{
    let len = chars.len();
    match p {
        Pattern::Exact(lit) => {
            if starts_with(chars, pos, lit) {
                Some(pos + lit.len())
            } else {
                None
            }
        },
        Pattern::Quoted => {
            if chars[pos] != '"' {
                return None;
            }
            let end = scan_run(chars, pos + 1, CharClass::NotQuote);
            if end < chars.len() {
                Some(end + 1)
            } else {
                None
            }
        },
        Pattern::LineComment => {
            let slashes = vec!['/', '/'];
            assert(slashes@ =~= seq!['/', '/']);
            if starts_with(chars, pos, &slashes) {
                Some(scan_run(chars, pos + 2, CharClass::NotNewline))
            } else {
                None
            }
        },
        Pattern::BlockComment => {
            let opening = vec!['/', '*'];
            assert(opening@ =~= seq!['/', '*']);
            if starts_with(chars, pos, &opening) {
                scan_last_close(chars, pos + 2)
            } else {
                None
            }
        },
        Pattern::Digits => {
            let end = scan_run(chars, pos, CharClass::Digit);
            if end > pos {
                Some(end)
            } else {
                None
            }
        },
        Pattern::Decimal => {
            let point = scan_run(chars, pos, CharClass::Digit);
            if point > pos && point < chars.len() && chars[point] == '.' {
                let end = scan_run(chars, point + 1, CharClass::Digit);
                if end > point + 1 {
                    Some(end)
                } else {
                    None
                }
            } else {
                None
            }
        },
        Pattern::Fraction => {
            if chars[pos] != '.' {
                return None;
            }
            let end = scan_run(chars, pos + 1, CharClass::Digit);
            if end > pos + 1 {
                Some(end)
            } else {
                None
            }
        },
        Pattern::Name => {
            if name_start(chars[pos]) {
                Some(scan_run(chars, pos + 1, CharClass::NameChar))
            } else {
                None
            }
        },
        Pattern::Space => {
            if space(chars[pos]) {
                Some(pos + 1)
            } else {
                None
            }
        },
    }
}

/// The winner among the rules at `pos`: the index of the rule and the end of
/// its match.
fn find_best(rules: &LexerRules, chars: &Vec<char>, pos: usize) -> (r: Option<(usize, usize)>)
    requires
        pos < chars@.len(),
    ensures
        match r {
            Some((i, end)) => best_match(rules@, rules@.len(), chars@, pos as nat) == Some(
                (i as nat, end as nat),
            ) && i < rules@.len() && end <= chars@.len(),
            None => best_match(rules@, rules@.len(), chars@, pos as nat) is None,
        },
{
    let mut best: Option<(usize, usize)> = None;
    let mut n: usize = 0;
    while n < rules.rules.len()
        invariant
            n <= rules.rules@.len(),
            rules@.len() == rules.rules@.len(),
            pos < chars@.len(),
            match best {
                Some((i, end)) => best_match(rules@, n as nat, chars@, pos as nat) == Some(
                    (i as nat, end as nat),
                ) && i < n && end <= chars@.len(),
                None => best_match(rules@, n as nat, chars@, pos as nat) is None,
            },
        decreases rules.rules@.len() - n,
    {
        let found = match_pattern(&rules.rules[n].pattern, chars, pos);
        assert(rules@[n as int].pattern == rules.rules@[n as int].pattern@);
        match found {
            None => {},
            Some(end) => {
                match best {
                    None => {
                        best = Some((n, end));
                    },
                    Some((_, longest)) => {
                        if end > longest {
                            best = Some((n, end));
                        }
                    },
                }
            },
        }
        n += 1;
    }
    best
}

/// Cuts a text into lexemes under the rules.
pub fn lex(rules: &LexerRules, text: &str) -> (r: Result<Vec<Lexeme>, LexerError>)
    ensures
        match r {
            Ok(lexemes) => lex_spec(rules@, text@) == Ok::<Seq<LexemeV>, nat>(
                lexemes_view(lexemes@),
            ),
            Err(e) => lex_spec(rules@, text@) == Err::<Seq<LexemeV>, nat>(e.at as nat),
        },
{
    let chars = chars_of(text);
    let mut out: Vec<Lexeme> = Vec::new();
    let mut pos: usize = 0;
    proof {
        assert(lexemes_view(out@) =~= Seq::<LexemeV>::empty());
    }
    while pos < chars.len()
        invariant
            chars@ == text@,
            pos <= chars@.len(),
            lex_from(rules@, chars@, pos as nat, lexemes_view(out@)) == lex_spec(rules@, text@),
        decreases chars@.len() - pos,
    {
        match find_best(rules, &chars, pos) {
            None => {
                return Err(LexerError { at: pos });
            },
            Some((i, end)) => {
                if end <= pos {
                    return Err(LexerError { at: pos });
                }
                assert(rules@[i as int].kind == rules.rules@[i as int].kind);
                match rules.rules[i].kind {
                    Some(kind) => {
                        let ghost before = lexemes_view(out@);
                        let raw = text_of(&chars, pos, end);
                        out.push(Lexeme { kind, raw });
                        assert(lexemes_view(out@) =~= before.push(
                            LexemeV { kind, raw: chars@.subrange(pos as int, end as int) },
                        ));
                    },
                    None => {},
                }
                pos = end;
            },
        }
    }
    Ok(out)
}

/// Adds a rule at the end of a table.
fn add_rule(rules: &mut LexerRules, kind: Option<TokenKind>, pattern: Pattern)
    ensures
        final(rules)@ == old(rules)@.push(RuleV { kind, pattern: pattern@ }),
{
    rules.rules.push(LexerRule { kind, pattern });
    assert(rules@ =~= old(rules)@.push(RuleV { kind, pattern: pattern@ }));
}

/// Adds a rule for a fixed spelling at the end of a table.
fn add_exact(rules: &mut LexerRules, kind: TokenKind, spelling: &str)
    ensures
        final(rules)@ == old(rules)@.push(exact_rule(kind, spelling@)),
{
    add_rule(rules, Some(kind), Pattern::Exact(chars_of(spelling)));
}

/// The rules of the language, in the order of their priority.
pub fn rules() -> (r: LexerRules)
    ensures
        r@ == rules_spec(),
{
    let mut r = LexerRules { rules: Vec::new() };
    assert(r@ =~= Seq::<RuleV>::empty());
    add_rule(&mut r, Some(TokenKind::Str), Pattern::Quoted);
    add_rule(&mut r, None, Pattern::LineComment);
    add_rule(&mut r, None, Pattern::BlockComment);
    add_rule(&mut r, Some(TokenKind::Integer), Pattern::Digits);
    add_rule(&mut r, Some(TokenKind::Float), Pattern::Decimal);
    add_rule(&mut r, Some(TokenKind::Float), Pattern::Fraction);
    add_exact(&mut r, TokenKind::Assign, "=");
    add_exact(&mut r, TokenKind::Plus, "+");
    add_exact(&mut r, TokenKind::Minus, "-");
    add_exact(&mut r, TokenKind::Star, "*");
    add_exact(&mut r, TokenKind::Slash, "/");
    add_exact(&mut r, TokenKind::Caret, "^");
    add_exact(&mut r, TokenKind::Percent, "%");
    add_exact(&mut r, TokenKind::Lt, "<");
    add_exact(&mut r, TokenKind::Gt, ">");
    add_exact(&mut r, TokenKind::Lte, "<=");
    add_exact(&mut r, TokenKind::Gte, ">=");
    add_exact(&mut r, TokenKind::Eql, "==");
    add_exact(&mut r, TokenKind::Neq, "!=");
    add_exact(&mut r, TokenKind::Colon, ":");
    add_exact(&mut r, TokenKind::Comma, ",");
    add_exact(&mut r, TokenKind::LParen, "(");
    add_exact(&mut r, TokenKind::RParen, ")");
    add_exact(&mut r, TokenKind::LBrace, "{");
    add_exact(&mut r, TokenKind::RBrace, "}");
    add_exact(&mut r, TokenKind::LBracket, "[");
    add_exact(&mut r, TokenKind::RBracket, "]");
    add_exact(&mut r, TokenKind::Fn, "fn");
    add_exact(&mut r, TokenKind::Dollar, "$");
    add_exact(&mut r, TokenKind::Semicolon, ";");
    add_exact(&mut r, TokenKind::While, "while");
    add_rule(&mut r, Some(TokenKind::Name), Pattern::Name);
    add_rule(&mut r, None, Pattern::Space);
    r
}

} // verus!
