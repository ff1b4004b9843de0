use minilang::lexer::{lex, rules, LexerError, TokenKind};

fn kinds(text: &str) -> Vec<TokenKind> {
    lex(&rules(), text).unwrap().into_iter().map(|l| l.kind).collect()
}

fn raws(text: &str) -> Vec<String> {
    lex(&rules(), text).unwrap().into_iter().map(|l| l.raw).collect()
}

#[test]
fn lexer_test() {
    let text = "

fn fib(x) {
    x <= 2 : x,
    fib(x-1) + fib(x-2)
}

x = fib(8);

a = 1;
b = 1;

while [1] {
    a = a + b;
    b = a + b;
    disp(a);
    disp(b);
}

";

    let rules = rules();

    let tokens = lex(&rules, &text).unwrap();

    println!("{:#?}", tokens);
    assert_eq!(tokens.len(), 69);
    assert_eq!(tokens[0].kind, TokenKind::Fn);
    assert_eq!(tokens[1].kind, TokenKind::Name);
    assert_eq!(tokens[1].raw, "fib");
    assert_eq!(tokens[68].kind, TokenKind::RBrace);
}

#[test]
fn the_table_has_every_rule() {
    assert_eq!(rules().rules.len(), 33);
}

#[test]
fn keywords_win_over_names_of_the_same_length() {
    assert_eq!(kinds("fn while fnx whiles _fn"), vec![
        TokenKind::Fn,
        TokenKind::While,
        TokenKind::Name,
        TokenKind::Name,
        TokenKind::Name,
    ]);
    assert_eq!(raws("fnx whiles"), vec!["fnx", "whiles"]);
}

#[test]
fn the_longest_match_wins() {
    assert_eq!(kinds("<= < = == >= > !="), vec![
        TokenKind::Lte,
        TokenKind::Lt,
        TokenKind::Assign,
        TokenKind::Eql,
        TokenKind::Gte,
        TokenKind::Gt,
        TokenKind::Neq,
    ]);
    assert_eq!(kinds("==="), vec![TokenKind::Eql, TokenKind::Assign]);
}

#[test]
fn numbers_are_told_apart_by_the_point() {
    assert_eq!(kinds("12 1.5 .25 007"), vec![
        TokenKind::Integer,
        TokenKind::Float,
        TokenKind::Float,
        TokenKind::Integer,
    ]);
    assert_eq!(raws("12 1.5 .25 007"), vec!["12", "1.5", ".25", "007"]);
    assert_eq!(raws("1.5.25"), vec!["1.5", ".25"]);
    assert_eq!(raws("12abc"), vec!["12", "abc"]);
}

#[test]
fn strings_keep_their_quotes_and_may_span_lines() {
    assert_eq!(raws("\"a b\" \"\" \"x\ny\""), vec!["\"a b\"", "\"\"", "\"x\ny\""]);
    assert_eq!(kinds("\"// no comment\""), vec![TokenKind::Str]);
}

#[test]
fn comments_and_white_space_are_skipped() {
    assert_eq!(raws("a // rest ; of line\nb"), vec!["a", "b"]);
    assert_eq!(raws("a /* x */ b"), vec!["a", "b"]);
    assert_eq!(raws("a /* x */ b /* y */ c"), vec!["a", "c"]);
    assert_eq!(raws("a /* open"), vec!["a", "/", "*", "open"]);
    assert_eq!(raws("a/*/b"), vec!["a", "/", "*", "/", "b"]);
    assert_eq!(raws("a/**/b"), vec!["a", "b"]);
    assert_eq!(raws(" \t\r\n\u{a0}\u{3000}a"), vec!["a"]);
    assert_eq!(raws("//"), Vec::<String>::new());
    assert_eq!(raws(""), Vec::<String>::new());
}

#[test]
fn punctuation() {
    assert_eq!(kinds("+-*/^%:,(){}[]$;"), vec![
        TokenKind::Plus,
        TokenKind::Minus,
        TokenKind::Star,
        TokenKind::Slash,
        TokenKind::Caret,
        TokenKind::Percent,
        TokenKind::Colon,
        TokenKind::Comma,
        TokenKind::LParen,
        TokenKind::RParen,
        TokenKind::LBrace,
        TokenKind::RBrace,
        TokenKind::LBracket,
        TokenKind::RBracket,
        TokenKind::Dollar,
        TokenKind::Semicolon,
    ]);
}

#[test]
fn an_unknown_character_is_an_error_at_its_place() {
    assert_eq!(lex(&rules(), "a ? b"), Err(LexerError { at: 2 }));
    assert_eq!(lex(&rules(), "\"open"), Err(LexerError { at: 0 }));
    assert_eq!(lex(&rules(), "1."), Err(LexerError { at: 1 }));
    assert_eq!(lex(&rules(), "a ! b"), Err(LexerError { at: 2 }));
    assert_eq!(lex(&rules(), "é"), Err(LexerError { at: 0 }));
    assert_eq!(lex(&rules(), "\"é\" ?"), Err(LexerError { at: 4 }));
}
