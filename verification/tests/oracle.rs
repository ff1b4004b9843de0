use minilang::ast::{Ast, Forkop};
use minilang::lexer::{lex, rules, TokenKind};
use minilang::number::{Float, Integer};
use minilang::parser::parse;
use minilang::value::Value;
use santiago::grammar::{Associativity, Grammar, GrammarBuilder};
use santiago::lexer::{LexerBuilder, LexerRules};

/// What the productions of the grammar hand to one another.
#[derive(Debug)]
enum Piece {
    NameList(Vec<String>),
    Vast(Vec<Ast>),
    Name(String),
    Ast(Ast),
    Marker,
    Taken,
}

impl Piece {
    fn take(&mut self) -> Piece {
        std::mem::replace(self, Piece::Taken)
    }

    fn namelist(&mut self) -> Vec<String> {
        match self.take() {
            Piece::NameList(x) => x,
            other => panic!("no name list: {:?}", other),
        }
    }

    fn vast(&mut self) -> Vec<Ast> {
        match self.take() {
            Piece::Vast(x) => x,
            other => panic!("no list: {:?}", other),
        }
    }

    fn ast(&mut self) -> Ast {
        match self.take() {
            Piece::Ast(x) => x,
            other => panic!("no node: {:?}", other),
        }
    }

    fn name(&mut self) -> String {
        match self.take() {
            Piece::Name(x) => x,
            other => panic!("no name: {:?}", other),
        }
    }

    fn bast(&mut self) -> Box<Ast> {
        Box::new(self.ast())
    }
}

fn reversed<T>(mut v: Vec<T>) -> Vec<T> {
    v.reverse();
    v
}

/// The lexer rules of the language as a table for the santiago lexer.
fn santiago_rules() -> LexerRules {
    let mut b = LexerBuilder::new();
    b.pattern(&["DEFAULT"], "STRING", r#""[^"]*""#, |l| l.take());
    b.pattern(&["DEFAULT"], "", r#"//[^\n]*"#, |l| l.skip());
    b.pattern(&["DEFAULT"], "", r#"/\*(.|\s)*\*/"#, |l| l.skip());
    b.pattern(&["DEFAULT"], "INTEGER", r#"\d+"#, |l| l.take());
    b.pattern(&["DEFAULT"], "FLOAT", r#"\d+\.\d+"#, |l| l.take());
    b.pattern(&["DEFAULT"], "FLOAT", r#"\.\d+"#, |l| l.take());
    for s in ["=", "+", "-", "*", "/", "^", "%", "<", ">", "<=", ">=", "==", "!=", "<=", ":", ",", "(", ")", "{", "}", "[", "]"] {
        b.string(&["DEFAULT"], s, s, |l| l.take());
    }
    b.string(&["DEFAULT"], "FN", "fn", |l| l.take());
    b.string(&["DEFAULT"], "$", "$", |l| l.take());
    b.string(&["DEFAULT"], ";", ";", |l| l.take());
    b.string(&["DEFAULT"], "WHILE", "while", |l| l.take());
    b.pattern(&["DEFAULT"], "NAME", r#"[a-zA-Z_][a-zA-Z0-9_]*"#, |l| l.take());
    b.pattern(&["DEFAULT"], "", r#"\s"#, |l| l.skip());
    b.finish()
}

fn fork(b: &mut GrammarBuilder<Piece>, symbol: &'static str, op: Forkop) {
    b.rule_to_rules("expr", &["expr", symbol, "expr"], move |mut t: Vec<Piece>| {
        Piece::Ast(Ast::Fork { left: t[0].bast(), right: t[2].bast(), op })
    });
}

/// The grammar of the language as a table for the santiago parser.
fn santiago_grammar() -> Grammar<Piece> {
    let mut b: GrammarBuilder<Piece> = GrammarBuilder::new();
    b.rule_to_rules("program", &["expr_list"], |mut t: Vec<Piece>| {
        Piece::Vast(reversed(t[0].take().vast()))
    });
    b.rule_to_rules("expr_list", &["expr", ";", "expr_list"], |mut t: Vec<Piece>| {
        let mut v = t[2].vast();
        v.push(t[0].ast());
        Piece::Vast(v)
    });
    b.rule_to_rules("expr_list", &[], |_| Piece::Vast(Vec::new()));
    b.rule_to_rules("expr", &["(", "expr", ")"], |mut t: Vec<Piece>| t[1].take());
    b.rule_to_rules("expr", &["name"], |mut t: Vec<Piece>| Piece::Ast(Ast::Get(t[0].name())));
    b.rule_to_rules("expr", &["$", "[", "arg_list", "]"], |mut t: Vec<Piece>| {
        Piece::Ast(Ast::VecLiteral(reversed(t[2].vast())))
    });
    b.rule_to_rules("expr", &["fn", "name", "(", "name_list", ")", "expr"], |mut t: Vec<Piece>| {
        Piece::Ast(Ast::FunDef {
            args: reversed(t[3].namelist()),
            body: t[5].bast(),
            name: t[1].name(),
        })
    });
    b.rule_to_rules("expr", &["name", "=", "expr"], |mut t: Vec<Piece>| {
        Piece::Ast(Ast::Assign { name: t[0].name(), value: t[2].bast() })
    });
    b.rule_to_rules("expr", &["[", "expr_list", "]"], |mut t: Vec<Piece>| {
        Piece::Ast(Ast::ExpressionList(reversed(t[1].vast())))
    });
    b.rule_to_rules("name_list", &["name", ",", "name_list"], |mut t: Vec<Piece>| {
        let mut a = t[2].namelist();
        a.push(t[0].name());
        Piece::NameList(a)
    });
    b.rule_to_rules("name_list", &["name"], |mut t: Vec<Piece>| Piece::NameList(vec![t[0].name()]));
    b.rule_to_rules("name_list", &[], |_| Piece::NameList(vec![]));
    b.rule_to_rules("expr", &["name", "(", "arg_list", ")"], |mut t: Vec<Piece>| {
        Piece::Ast(Ast::Call { name: t[0].name(), with: t[2].vast() })
    });
    b.rule_to_rules("arg_list", &["expr", ",", "arg_list"], |mut t: Vec<Piece>| {
        let mut v = t[2].vast();
        v.push(t[0].ast());
        Piece::Vast(v)
    });
    b.rule_to_rules("arg_list", &["expr"], |mut t: Vec<Piece>| Piece::Vast(vec![t[0].ast()]));
    b.rule_to_rules("arg_list", &[], |_| Piece::Vast(vec![]));
    b.rule_to_rules("expr", &["{", "conditional", "}"], |mut t: Vec<Piece>| t[1].take());
    b.rule_to_rules("conditional", &["expr", ":", "expr", ",", "conditional"], |mut t: Vec<Piece>| {
        Piece::Ast(Ast::If { else_: Some(t[4].bast()), if_: t[0].bast(), then_: t[2].bast() })
    });
    b.rule_to_rules("conditional", &["expr", ":", "expr"], |mut t: Vec<Piece>| {
        Piece::Ast(Ast::If {
            else_: Some(Ast::null().boxed()),
            if_: t[0].bast(),
            then_: t[2].bast(),
        })
    });
    b.rule_to_rules("conditional", &["expr"], |mut t: Vec<Piece>| t[0].take());
    b.rule_to_rules("conditional", &[], |_| Piece::Ast(Ast::null()));
    b.rule_to_rules("expr", &["while", "expr", ":", "expr"], |mut t: Vec<Piece>| {
        Piece::Ast(Ast::While { body: t[3].bast(), cond: t[1].bast() })
    });
    fork(&mut b, "<", Forkop::Lt);
    fork(&mut b, ">", Forkop::Gt);
    fork(&mut b, "<=", Forkop::Lte);
    fork(&mut b, ">=", Forkop::Gte);
    fork(&mut b, "==", Forkop::Eql);
    fork(&mut b, "!=", Forkop::Neq);
    fork(&mut b, "+", Forkop::Add);
    fork(&mut b, "-", Forkop::Sub);
    fork(&mut b, "*", Forkop::Mul);
    fork(&mut b, "/", Forkop::Div);
    fork(&mut b, "^", Forkop::Pow);
    fork(&mut b, "%", Forkop::Mod);
    b.rule_to_lexemes("name", &["NAME"], |t| Piece::Name(t[0].raw.clone()));
    b.rule_to_lexemes("expr", &["STRING"], |t| {
        let raw = t[0].raw.as_str();
        Piece::Ast(Ast::Literal(Value::String(String::from(&raw[1..raw.len() - 1]))))
    });
    b.rule_to_lexemes("expr", &["INTEGER"], |t| {
        Piece::Ast(Ast::Literal(Value::Integer(Integer::parse(t[0].raw.as_str()).unwrap())))
    });
    b.rule_to_lexemes("expr", &["FLOAT"], |t| {
        Piece::Ast(Ast::Literal(Value::Float(Float::parse(t[0].raw.as_str(), 363).unwrap())))
    });
    for s in ["=", "+", "-", "*", "/", "^", "%", "<", ">", "<=", ">=", "==", "!=", ":", ",", "(", ")", "{", "}", "[", "]", "$", ";"] {
        b.rule_to_lexemes(s, &[s], |_| Piece::Marker);
    }
    b.rule_to_lexemes("fn", &["FN"], |_| Piece::Marker);
    b.rule_to_lexemes("while", &["WHILE"], |_| Piece::Marker);
    b.disambiguate(Associativity::Right, &["="]);
    b.disambiguate(Associativity::Left, &["<=", ">=", "==", "!=", ">", "<"]);
    b.disambiguate(Associativity::Left, &["+", "-"]);
    b.disambiguate(Associativity::Left, &["*", "/"]);
    b.disambiguate(Associativity::Left, &["%", "^"]);
    b.finish()
}

fn kind_name(kind: TokenKind) -> &'static str {
    match kind {
        TokenKind::Str => "STRING",
        TokenKind::Integer => "INTEGER",
        TokenKind::Float => "FLOAT",
        TokenKind::Name => "NAME",
        TokenKind::Fn => "FN",
        TokenKind::While => "WHILE",
        TokenKind::Assign => "=",
        TokenKind::Plus => "+",
        TokenKind::Minus => "-",
        TokenKind::Star => "*",
        TokenKind::Slash => "/",
        TokenKind::Caret => "^",
        TokenKind::Percent => "%",
        TokenKind::Lt => "<",
        TokenKind::Gt => ">",
        TokenKind::Lte => "<=",
        TokenKind::Gte => ">=",
        TokenKind::Eql => "==",
        TokenKind::Neq => "!=",
        TokenKind::Colon => ":",
        TokenKind::Comma => ",",
        TokenKind::LParen => "(",
        TokenKind::RParen => ")",
        TokenKind::LBrace => "{",
        TokenKind::RBrace => "}",
        TokenKind::LBracket => "[",
        TokenKind::RBracket => "]",
        TokenKind::Dollar => "$",
        TokenKind::Semicolon => ";",
    }
}

/// The lexemes of a text by the santiago lexer, as pairs of kind and text.
fn santiago_lexemes(text: &str) -> Option<Vec<(String, String)>> {
    match santiago::lexer::lex(&santiago_rules(), text) {
        Ok(lexemes) => Some(lexemes.iter().map(|l| (l.kind.clone(), l.raw.clone())).collect()),
        Err(_) => None,
    }
}

fn own_lexemes(text: &str) -> Option<Vec<(String, String)>> {
    match lex(&rules(), text) {
        Ok(lexemes) => {
            Some(lexemes.into_iter().map(|l| (kind_name(l.kind).to_string(), l.raw)).collect())
        },
        Err(_) => None,
    }
}

/// Every syntax tree that the santiago parser finds for a text.
fn santiago_programs(text: &str) -> Vec<Vec<Ast>> {
    let lexemes = santiago::lexer::lex(&santiago_rules(), text).unwrap();
    match santiago::parser::parse(&santiago_grammar(), &lexemes) {
        Ok(trees) => trees.iter().map(|t| t.as_abstract_syntax_tree().vast()).collect(),
        Err(_) => vec![],
    }
}

fn own_program(text: &str) -> Option<Vec<Ast>> {
    parse(&lex(&rules(), text).unwrap())
}

const TEXTS: [&str; 40] = [
    "",
    "displn(1+2);",
    "fn fib(x) { x <= 2 : x, fib(x-1) + fib(x-2) };\ndispln(fib(8));",
    "a = $[1,2,3]; a = a + 4 + 5 + 6; displn(a);",
    "displn(\"\" + 17);",
    "displn(1/0);",
    "a=1; b=1; c=1; while c < 4 : [ displn(a); t = a+b; a = b; b = t; c = c+1; ];",
    "disp(1,2,3);",
    "1 + 2 * 3 - 4 / 5 % 6 ^ 7;",
    "1 ^ 2 % 3 * 4 / 5 - 6 + 7;",
    "1 < 2 == 3 >= 4 != 5 <= 6 > 7;",
    "1 - 2 - 3; 1 / 2 / 3; 1 ^ 2 ^ 3;",
    "(1 + 2) * (3 - (4));",
    "a = b = c = 1;",
    "a = 1 < 2;",
    "x = 1.5 + .25 * 007;",
    "\"two\nlines\" + \"\";",
    "{}; {a}; {a : 1}; {a : 1, 2}; {a : 1, b : 2, 3}; {a : 1,};",
    "f(); f(1); f(1,); f(1, 2); f(g(1), h(2, 3));",
    "$[]; $[1]; $[1,]; $[1, $[2, 3]];",
    "[]; [1;]; [1; [2;];];",
    "fn f() 1; fn g(x) x; fn h(x, y,) [x; y;]; fn k(a, b, c) { a : b, c };",
    "while a : b; while (a < 1) : [a = a + 1;];",
    "a = [1; 2;]; b = {1 : 2}; c = $[a, b];",
    "// only a comment",
    "1; // trailing\n2; /* block */ 3;",
    "a /* one */ + /* two */ b;",
    "fnx = whiley + _fn1;",
    "1",
    "1; 2",
    ";",
    "1 +;",
    "1 + a = 2;",
    "f(,);",
    "$[1,,2];",
    "{a : };",
    "(1;",
    "];",
    "fn (x) 1;",
    "a = ;",
];

#[test]
fn the_lexer_agrees_with_santiago() {
    let extra = [
        "a ? b",
        "\"open",
        "1.",
        "1.5.25",
        "12abc",
        "a ! b",
        "===",
        "<==>",
        "a /* open",
        "a/*/b",
        "a/**/b",
        "/* a */ b /* c */",
        " \t\r\n\u{a0}\u{3000}a",
        "while(fn)",
        "\"// no comment\"",
        "// a \"string\nb",
        "a//b/*c\nd*/e",
    ];
    for text in TEXTS.iter().chain(extra.iter()) {
        assert_eq!(own_lexemes(text), santiago_lexemes(text), "text: {:?}", text);
    }
}

#[test]
fn the_parser_agrees_with_santiago() {
    for text in TEXTS.iter() {
        let trees = santiago_programs(text);
        let own = own_program(text);
        match own {
            None => assert!(trees.is_empty(), "text: {:?}", text),
            Some(program) => {
                assert!(!trees.is_empty(), "text: {:?}", text);
                assert_eq!(program, trees[0], "text: {:?}", text);
            },
        }
    }
}

#[test]
fn where_santiago_finds_several_trees_the_shortest_body_is_its_first() {
    let texts = [
        "while a : b + 1;",
        "1 + while a : b + 1;",
        "1 + while a : b;",
        "1 * while a : b + 1;",
        "1 + while a : b * 2;",
        "fn f(x) x + 1;",
        "fn f(x) x * 2 + 1;",
        "1 * fn f(x) x + 1;",
        "while a : b < c;",
        "while a : b = 1;",
        "while a : b = 1 + 2;",
        "fn f(x) x = 1 + 2;",
        "1 + while a : b = 1;",
        "x = while a : b + 1;",
        "x = fn f(y) y + 1;",
        "while a : while b : c + 1;",
        "while a : fn f(x) x + 1;",
        "{ while a : b + 1 : c };",
        "{ a : while b : c + 1, d };",
        "f(while a : b + 1);",
        "1 + 2 * while a : b ^ 2 * 3 + 4;",
        "while a : b + 1 + 2;",
        "while a : (b) + 1;",
        "while a : b(1) + 1;",
        "while a : [b;] + 1;",
        "1 - while a : b - 2 - 3;",
        "while while a : b : c;",
    ];
    for text in texts {
        let trees = santiago_programs(text);
        let own = own_program(text).unwrap();
        assert_eq!(own, trees[0], "text: {:?}", text);
    }
}

#[test]
fn a_tree_of_santiago_that_is_not_its_first() {
    let text = "1 * while a : b + 2 * 3;";
    let trees = santiago_programs(text);
    let own = own_program(text).unwrap();
    assert_eq!(trees.len(), 2);
    assert_eq!(own, trees[1]);
}

/// A small generator of numbers for the random texts.
struct Dice(u64);

impl Dice {
    fn roll(&mut self, sides: usize) -> usize {
        self.0 = self.0.wrapping_mul(6364136223846793005).wrapping_add(1442695040888963407);
        ((self.0 >> 33) as usize) % sides
    }
}

/// Compares the parser with santiago on random texts of the given words:
/// both accept the same texts, and the tree of the parser is one of the
/// trees of santiago.
fn compare_on_random_texts(seed: u64, words: &[&str], longest: usize, count: usize) {
    let lexer = santiago_rules();
    let grammar = santiago_grammar();
    let mut dice = Dice(seed);
    let mut accepted = 0;
    for _ in 0..count {
        let n = 1 + dice.roll(longest);
        let mut text = String::new();
        for _ in 0..n {
            text.push_str(words[dice.roll(words.len())]);
            text.push(' ');
        }
        text.push(';');
        let lexemes = santiago::lexer::lex(&lexer, &text).unwrap();
        let trees: Vec<Vec<Ast>> = match santiago::parser::parse(&grammar, &lexemes) {
            Ok(trees) => trees.iter().map(|t| t.as_abstract_syntax_tree().vast()).collect(),
            Err(_) => vec![],
        };
        match own_program(&text) {
            None => assert!(trees.is_empty(), "text: {:?}", text),
            Some(program) => {
                accepted += 1;
                assert!(trees.contains(&program), "text: {:?}", text);
            },
        }
    }
    assert!(accepted > count / 100, "accepted: {}", accepted);
}

#[test]
fn random_texts_of_operators() {
    let words = ["a", "1", "b", "+", "-", "*", "/", "%", "^", "<", "==", "(", ")", "="];
    compare_on_random_texts(1, &words, 7, 1500);
}

#[test]
fn random_texts_of_loops_and_definitions() {
    let words = ["a", "1", "+", "*", "<", "=", ":", "while", "fn f ( x )", "fn g ( )", "(", ")"];
    compare_on_random_texts(2, &words, 7, 1500);
}

#[test]
fn random_texts_of_lists_and_conditionals() {
    let words = ["a", "1", "+", ",", ":", ";", "{", "}", "[", "]", "$ [", "f (", ")", "="];
    compare_on_random_texts(3, &words, 8, 1500);
}

#[test]
fn random_texts_of_everything() {
    let words = [
        "a", "1", "2.5", "\"s\"", "+", "*", "<=", "=", ",", ":", ";", "{", "}", "[", "]", "$", "(",
        ")", "while", "fn", "f",
    ];
    compare_on_random_texts(4, &words, 6, 1500);
}

#[test]
fn random_texts_of_characters() {
    let pieces = [
        "a", "f", "n", "w", "_", "1", "0", ".", "\"", "/", "*", " ", "\n", "=", "<", ">", "!", "+",
        "fn", "while", "//", "/*", "*/", ";", "(", "]", "$", "?",
    ];
    let lexer = santiago_rules();
    let own_rules = rules();
    let mut dice = Dice(5);
    let mut accepted = 0;
    for _ in 0..4000 {
        let n = 1 + dice.roll(10);
        let mut text = String::new();
        for _ in 0..n {
            text.push_str(pieces[dice.roll(pieces.len())]);
        }
        let theirs: Option<Vec<(String, String)>> = match santiago::lexer::lex(&lexer, &text) {
            Ok(lexemes) => Some(lexemes.iter().map(|l| (l.kind.clone(), l.raw.clone())).collect()),
            Err(_) => None,
        };
        let ours: Option<Vec<(String, String)>> = match lex(&own_rules, &text) {
            Ok(lexemes) => {
                Some(lexemes.into_iter().map(|l| (kind_name(l.kind).to_string(), l.raw)).collect())
            },
            Err(_) => None,
        };
        if ours.is_some() {
            accepted += 1;
        }
        assert_eq!(ours, theirs, "text: {:?}", text);
    }
    assert!(accepted > 1000, "accepted: {}", accepted);
}
