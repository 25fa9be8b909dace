use std::cell::Cell;

use qsp::errors::{Describe, HeadTailSplitError, PairSplitError, TryFlatMapError};
use qsp::{parse, Delimiter, Expr, ParseResult, Sequence, Span, Token};

fn span(lo: usize, hi: usize) -> Span {
    Span { lo, hi }
}

fn lit(text: &str, lo: usize) -> Token {
    Token::Literal { text: text.to_string(), span: span(lo, lo + text.len()) }
}

fn ident(text: &str, lo: usize) -> Token {
    Token::Ident { text: text.to_string(), span: span(lo, lo + text.len()) }
}

fn list(stream: Vec<Token>, text: &str) -> Token {
    Token::Group { delimiter: Delimiter::Parenthesis, stream, text: text.to_string(), span: span(0, text.len()) }
}

fn parse_one(tokens: Vec<Token>) -> Expr {
    match parse(tokens) {
        ParseResult::Match(m) => {
            assert!(m.stream.is_empty());
            m.value
        }
        _ => panic!("expected one expression"),
    }
}

/// `(a b c)`
fn abc() -> Expr {
    parse_one(vec![list(vec![ident("a", 1), ident("b", 3), ident("c", 5)], "(a b c)")])
}

#[test]
fn head_tail_split_on_empty_list() {
    let e = parse_one(vec![list(vec![], "()")]);
    assert!(matches!(e.head_tail_split(), Err(HeadTailSplitError::ListEmptyError(_))));
}

#[test]
fn head_tail_split_on_one_element() {
    let e = parse_one(vec![list(vec![ident("a", 1)], "(a)")]);
    let (head, tail) = e.head_tail_split().unwrap();
    assert_eq!(head.to_string(), "a");
    assert!(tail.as_slice().is_empty());
    assert!(tail.head_tail_split().is_err());
}

#[test]
fn head_tail_split_on_three_elements() {
    let e = abc();
    let (head, tail) = e.head_tail_split().unwrap();
    assert_eq!(head.to_string(), "a");
    let rest: Vec<String> = tail.as_slice().iter().map(|x| x.to_string()).collect();
    assert_eq!(rest, vec!["b".to_string(), "c".to_string()]);
    let (b, tail2) = tail.head_tail_split().unwrap();
    assert_eq!(b.to_string(), "b");
    let (c, tail3) = tail2.head_tail_split().unwrap();
    assert_eq!(c.to_string(), "c");
    assert!(tail3.as_slice().is_empty());
}

#[test]
fn head_tail_split_on_a_non_list() {
    let e = parse_one(vec![ident("x", 0)]);
    match e.head_tail_split() {
        Err(HeadTailSplitError::CastError(c)) => {
            assert_eq!(c.desired, "slice");
            assert_eq!(c.actual, "x");
        }
        _ => panic!("expected a cast error"),
    }
}

#[test]
fn pair_split_needs_exactly_two() {
    match abc().pair_split() {
        Err(PairSplitError::ElemNumberError(e)) => assert_eq!(e.actual, "(a, b, c)"),
        _ => panic!("expected an element number error"),
    }
    let e = parse_one(vec![lit("5", 0)]);
    assert!(matches!(e.pair_split(), Err(PairSplitError::CastError(_))));
}

#[test]
fn borrowed_pair_split_reports_the_rest() {
    let e = abc();
    let (_, tail) = e.head_tail_split().unwrap();
    let (b, c) = tail.pair_split().unwrap();
    assert_eq!(b.to_string(), "b");
    assert_eq!(c.to_string(), "c");
    let whole = parse_one(vec![list(vec![ident("a", 1)], "(a)")]);
    let (_, empty) = whole.head_tail_split().unwrap();
    assert_eq!(empty.pair_split().unwrap_err().actual, "()");
}

#[test]
fn casts_name_the_desired_kind() {
    let e = parse_one(vec![ident("name", 0)]);
    let err = e.as_literal().unwrap_err();
    assert_eq!(err.desired, "literal");
    assert_eq!(err.actual, "name");
    assert_eq!(e.as_operator().unwrap_err().desired, "punctuation");
    assert_eq!(e.as_rust_expr().unwrap_err().desired, "rust_expr");
    assert_eq!(e.as_slice().unwrap_err().desired, "slice");
    assert_eq!(e.as_str_lit().unwrap_err().desired, "string literal");
    let l = parse_one(vec![lit("5", 0)]);
    assert_eq!(l.as_identifier().unwrap_err().desired, "identifier");
}

#[test]
fn cast_error_describes_itself() {
    let e = parse_one(vec![ident("name", 0)]);
    let err = e.as_literal().unwrap_err();
    assert_eq!(err.describe(), "tried to get \"name\" as literal");
    let q = parse_one(vec![lit("\"q\"", 0)]);
    let err = q.as_identifier().unwrap_err();
    assert_eq!(err.describe(), "tried to get \"\\\"q\\\"\" as identifier");
}

#[test]
fn composite_errors_describe_their_variant() {
    let e = parse_one(vec![list(vec![], "()")]);
    assert_eq!(e.head_tail_split().unwrap_err().describe(), "List is empty");
    let err = abc().pair_split().unwrap_err();
    assert_eq!(err.describe(), "wrong number of elements for this operation. \"(a, b, c)\"");
}

#[test]
fn string_literal_view() {
    let e = parse_one(vec![lit("\"foo\"", 0)]);
    assert_eq!(e.as_str_lit().unwrap().contained_string(), "foo");
    let empty = parse_one(vec![lit("\"\"", 0)]);
    assert_eq!(empty.as_str_lit().unwrap().contained_string(), "");
    let five = parse_one(vec![lit("5", 0)]);
    assert!(five.as_str_lit().is_err());
}

#[test]
fn try_flat_map_concatenates_in_order() {
    let out = abc()
        .try_flat_map(|x: &Expr| -> Result<Sequence<String>, ()> {
            let s = x.to_string();
            Ok(Sequence::from(vec![s.clone(), s]))
        })
        .unwrap();
    assert_eq!(out.into_vec(), vec!["a", "a", "b", "b", "c", "c"]);
}

#[test]
fn try_flat_map_stops_at_first_failure() {
    let calls = Cell::new(0);
    let effects = Cell::new(0);
    let res = abc().try_flat_map(|x: &Expr| -> Result<Sequence<u32>, String> {
        calls.set(calls.get() + 1);
        let name = x.to_string();
        if name == "b" {
            Err(format!("failed on {name}"))
        } else {
            effects.set(effects.get() + 1);
            Ok(Sequence::once(1))
        }
    });
    match res {
        Err(TryFlatMapError::FnError(e)) => assert_eq!(e, "failed on b"),
        _ => panic!("expected the function's error"),
    }
    assert_eq!(calls.get(), 2);
    assert_eq!(effects.get(), 1);
}

#[test]
fn try_flat_map_on_a_non_list() {
    let e = parse_one(vec![ident("x", 0)]);
    let res = e.try_flat_map(|_: &Expr| -> Result<Sequence<u8>, ()> { Ok(Sequence::once(0)) });
    assert!(matches!(res, Err(TryFlatMapError::CastError(_))));
}

#[test]
fn borrowed_try_flat_map() {
    let e = abc();
    let (_, tail) = e.head_tail_split().unwrap();
    let out = tail
        .try_flat_map(|x: &Expr| -> Result<Sequence<String>, ()> { Ok(Sequence::once(x.to_string())) })
        .unwrap();
    assert_eq!(out.as_slice(), &["b".to_string(), "c".to_string()]);
}

#[test]
fn sequence_basics() {
    let mut s = Sequence::once(1);
    s.append(Sequence::from(vec![2, 3]));
    assert_eq!(s.into_vec(), vec![1, 2, 3]);
    assert!(Sequence::<u8>::new().as_slice().is_empty());
}

#[test]
fn span_join_covers_both() {
    let j = Span { lo: 3, hi: 5 }.join(Span { lo: 1, hi: 4 });
    assert_eq!(j, Span { lo: 1, hi: 5 });
}
