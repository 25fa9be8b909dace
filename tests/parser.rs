use qsp::token::copy_tokens;
use qsp::{parse, Delimiter, Expr, ParseResult, Span, Token};

fn span(lo: usize, hi: usize) -> Span {
    Span { lo, hi }
}

fn lit(text: &str, lo: usize) -> Token {
    Token::Literal { text: text.to_string(), span: span(lo, lo + text.len()) }
}

fn ident(text: &str, lo: usize) -> Token {
    Token::Ident { text: text.to_string(), span: span(lo, lo + text.len()) }
}

fn punct(ch: char, lo: usize) -> Token {
    Token::Punct { ch, span: span(lo, lo + 1) }
}

fn group(delimiter: Delimiter, stream: Vec<Token>, text: &str, lo: usize) -> Token {
    Token::Group { delimiter, stream, text: text.to_string(), span: span(lo, lo + text.len()) }
}

/// Parses tokens that must make exactly one expression.
fn parse_one(tokens: Vec<Token>) -> Expr {
    match parse(tokens) {
        ParseResult::Match(m) => {
            assert!(m.stream.is_empty(), "tokens left after the expression");
            m.value
        }
        ParseResult::Missmatch(_) => panic!("no expression"),
        ParseResult::InputEmpty => panic!("Input empty"),
    }
}

/// The tokens of `(get ("foo" (bar -> 5)))`.
fn get_foo_bar() -> Vec<Token> {
    let inner = group(
        Delimiter::Parenthesis,
        vec![ident("bar", 13), punct('-', 17), punct('>', 18), lit("5", 20)],
        "(bar -> 5)",
        12,
    );
    let mid = group(
        Delimiter::Parenthesis,
        vec![lit("\"foo\"", 6), inner],
        "(\"foo\" (bar -> 5))",
        5,
    );
    vec![group(
        Delimiter::Parenthesis,
        vec![ident("get", 1), mid],
        "(get (\"foo\" (bar -> 5)))",
        0,
    )]
}

#[test]
fn test_lit_parser() {
    let res = parse_one(vec![lit("\"lit\"", 0)]);
    assert_eq!(res.as_literal().unwrap().to_string(), "\"lit\"");

    let res = parse_one(vec![lit("5", 0)]);
    assert_eq!(res.as_literal().unwrap().to_string(), "5");
}

#[test]
fn test_ident_parser() {
    let res = parse_one(vec![ident("ident", 0)]);
    assert_eq!(res.as_identifier().unwrap().to_string(), "ident");
}

#[test]
fn test_punct_parser() {
    let res = parse_one(vec![punct('-', 0), punct('>', 1)]);
    assert_eq!(res.as_operator().unwrap().to_string(), "->");
}

#[test]
fn test_rust_expr_parser() {
    let body = vec![lit("7", 2), punct('+', 4), lit("8", 6)];
    let res = parse_one(vec![group(Delimiter::Brace, body, "{ 7 + 8 }", 0)]);
    assert_eq!(res.as_rust_expr().unwrap().to_string(), "{ 7 + 8 }");
}

#[test]
fn test_expr_parser() {
    let res = parse_one(get_foo_bar());
    let (get, inner) = res.pair_split().unwrap();
    assert_eq!(get.as_identifier().unwrap().to_string(), "get");
    let (foo, inner_) = inner.pair_split().unwrap();
    assert_eq!(foo.as_literal().unwrap().to_string(), r#""foo""#);
    let [bar, to, five] = inner_.as_slice().unwrap() else {
        panic!("inner_ has unexpected format: {inner_:#?}");
    };
    assert_eq!(bar.as_identifier().unwrap().to_string(), "bar");
    assert_eq!(to.as_operator().unwrap().to_string(), "->");
    assert_eq!(five.as_literal().unwrap().to_string(), "5");
}

#[test]
fn operator_consumes_only_the_punctuation_run() {
    let tokens = vec![punct('-', 0), punct('>', 1), ident("x", 3), punct('!', 4)];
    match parse(tokens) {
        ParseResult::Match(m) => {
            let op = m.value.as_operator().unwrap();
            assert_eq!(op.to_string(), "->");
            assert_eq!(op.span, span(0, 2));
            assert_eq!(m.stream, vec![ident("x", 3), punct('!', 4)]);
        }
        _ => panic!("expected a match"),
    }
}

#[test]
fn operator_run_up_to_end_of_input() {
    let tokens = vec![punct('=', 0), punct('=', 1), punct('>', 2)];
    match parse(tokens) {
        ParseResult::Match(m) => {
            assert_eq!(m.value.as_operator().unwrap().to_string(), "==>");
            assert!(m.stream.is_empty());
        }
        _ => panic!("expected a match"),
    }
}

#[test]
fn earliest_production_wins() {
    let tokens = vec![lit("1", 0), punct('+', 1)];
    match parse(tokens) {
        ParseResult::Match(m) => {
            assert!(m.value.as_literal().is_ok());
            assert_eq!(m.stream, vec![punct('+', 1)]);
        }
        _ => panic!("expected a match"),
    }
}

#[test]
fn nothing_fits_gives_input_back() {
    let tokens = vec![group(Delimiter::Bracket, vec![ident("a", 1)], "[a]", 0), ident("b", 4)];
    match parse(copy_tokens(&tokens)) {
        ParseResult::Missmatch(rest) => assert_eq!(rest, tokens),
        _ => panic!("expected a mismatch"),
    }
}

#[test]
fn empty_input_is_reported() {
    assert!(matches!(parse(vec![]), ParseResult::InputEmpty));
}

#[test]
fn failed_list_leaves_input_unchanged() {
    // `(a b [c]) d`: the bracket group inside fits no production.
    let interior = vec![
        ident("a", 1),
        ident("b", 3),
        group(Delimiter::Bracket, vec![ident("c", 6)], "[c]", 5),
    ];
    let tokens = vec![group(Delimiter::Parenthesis, interior, "(a b [c])", 0), ident("d", 10)];
    match parse(copy_tokens(&tokens)) {
        ParseResult::Missmatch(rest) => assert_eq!(rest, tokens),
        _ => panic!("expected a mismatch"),
    }
}

#[test]
fn nested_failure_fails_the_outer_list() {
    let bad = group(Delimiter::Parenthesis, vec![group(Delimiter::Bracket, vec![], "[]", 2)], "([])", 1);
    let tokens = vec![group(Delimiter::Parenthesis, vec![bad], "(([]))", 0)];
    match parse(copy_tokens(&tokens)) {
        ParseResult::Missmatch(rest) => assert_eq!(rest, tokens),
        _ => panic!("expected a mismatch"),
    }
}

#[test]
fn list_keeps_source_order_and_leftover() {
    let tokens = vec![
        group(Delimiter::Parenthesis, vec![ident("a", 1), ident("b", 3)], "(a b)", 0),
        ident("c", 6),
    ];
    match parse(tokens) {
        ParseResult::Match(m) => {
            let items = m.value.as_slice().unwrap();
            assert_eq!(items.len(), 2);
            assert_eq!(items[0].to_string(), "a");
            assert_eq!(items[1].to_string(), "b");
            assert_eq!(m.stream, vec![ident("c", 6)]);
        }
        _ => panic!("expected a match"),
    }
}

#[test]
fn empty_group_is_an_empty_list() {
    let res = parse_one(vec![group(Delimiter::Parenthesis, vec![], "()", 0)]);
    assert_eq!(res.as_slice().unwrap().len(), 0);
    assert_eq!(res.to_string(), "()");
}

#[test]
fn rendering_uses_commas() {
    let tokens = vec![group(Delimiter::Parenthesis, vec![ident("a", 1), ident("b", 3)], "(a b)", 0)];
    let res = parse_one(tokens);
    assert_eq!(res.to_string(), "(a, b)");
    assert_ne!(res.to_string(), "(a b)");
}

#[test]
fn nested_rendering() {
    let res = parse_one(get_foo_bar());
    assert_eq!(res.to_string(), "(get, (\"foo\", (bar, ->, 5)))");
}

#[test]
fn deep_nesting_parses() {
    let depth: usize = 64;
    let mut token = ident("x", depth);
    for level in (0..depth).rev() {
        token = group(Delimiter::Parenthesis, vec![token], "(...)", level);
    }
    let tree = parse_one(vec![token]);
    let mut node = &tree;
    for _ in 0..depth {
        let (inner, rest) = node.head_tail_split().unwrap();
        assert!(rest.as_slice().is_empty());
        node = inner;
    }
    assert_eq!(node.as_identifier().unwrap().to_string(), "x");
    assert_eq!(tree.to_string(), format!("{}x{}", "(".repeat(depth), ")".repeat(depth)));
}
