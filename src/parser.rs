//! Ordered-alternation parsing of tokens into [`Expr`] trees.
use vstd::prelude::*;

use crate::expr::{exprs_view, AtomV, Atom, Expr, ExprV};
use crate::token::{span_of, tokens_view, Delimiter, Token, TokenV};

verus! {

/// One production of the expression grammar.
#[derive(Clone, Copy, Debug, PartialEq, Eq, Structural)]
pub enum Production {
    Literal,
    Ident,
    Operator,
    RustExpr,
    List,
}

/// What a parser does with a token sequence: it matches a node and consumes the given
/// number of tokens from the front, or the leading tokens fit no production, or there
/// are no tokens.
pub ghost enum Outcome {
    Match(ExprV, nat),
    Mismatch,
    Empty,
}

/// The productions of an expression, in the order they are tried.
pub open spec fn expression_order() -> Seq<Production> {
    seq![
        Production::Literal,
        Production::Ident,
        Production::Operator,
        Production::RustExpr,
        Production::List,
    ]
}

/// The number of punctuation tokens at the front of `s`.
pub open spec fn punct_run(s: Seq<TokenV>) -> nat
    decreases s.len(),
{
    if s.len() > 0 && s[0] is Punct {
        1 + punct_run(s.drop_first())
    } else {
        0
    }
}

/// The characters of punctuation tokens, one after another.
pub open spec fn punct_text(s: Seq<TokenV>) -> Seq<char>
    decreases s.len(),
{
    if s.len() == 0 {
        Seq::empty()
    } else {
        punct_text(s.drop_last()).push(s.last()->Punct_ch)
    }
}

/// The operator node for the `n` punctuation tokens at the front of `s`: their
/// characters joined, under the span that covers them all.
pub open spec fn operator_atom(s: Seq<TokenV>, n: nat) -> AtomV {
    AtomV { text: punct_text(s.take(n as int)), span: span_of(s[0]).covering(span_of(s[n - 1])) }
}

/// The result of parsing an expression from `s`: the first production that does not
/// mismatch decides.
pub open spec fn parse_spec(s: Seq<TokenV>) -> Outcome
    decreases s, 3int, 0int,
{
    first_matching_spec(expression_order(), s)
}

/// The result of trying the productions `ps` on `s`, in order.
pub open spec fn first_matching_spec(ps: Seq<Production>, s: Seq<TokenV>) -> Outcome
    decreases s, 2int, ps.len(),
{
    if ps.len() == 0 {
        Outcome::Mismatch
    } else {
        match production_spec(ps[0], s) {
            Outcome::Mismatch => first_matching_spec(ps.drop_first(), s),
            o => o,
        }
    }
}

/// The result of one production on `s`.
pub open spec fn production_spec(p: Production, s: Seq<TokenV>) -> Outcome
    decreases s, 1int, 0int,
{
    if s.len() == 0 {
        Outcome::Empty
    } else {
        match p {
            Production::Literal => match s[0] {
                TokenV::Literal { text, span } => Outcome::Match(
                    ExprV::Literal(AtomV { text, span }),
                    1,
                ),
                _ => Outcome::Mismatch,
            },
            Production::Ident => match s[0] {
                TokenV::Ident { text, span } => Outcome::Match(
                    ExprV::Identifier(AtomV { text, span }),
                    1,
                ),
                _ => Outcome::Mismatch,
            },
            Production::Operator => {
                let n = punct_run(s);
                if n > 0 {
                    Outcome::Match(ExprV::Operator(operator_atom(s, n)), n)
                } else {
                    Outcome::Mismatch
                }
            },
            Production::RustExpr => match s[0] {
                TokenV::Group { delimiter: Delimiter::Brace, text, span, .. } => Outcome::Match(
                    ExprV::RustExpr(AtomV { text, span }),
                    1,
                ),
                _ => Outcome::Mismatch,
            },
            Production::List => match s[0] {
                TokenV::Group { delimiter: Delimiter::Parenthesis, stream, .. } => {
                    match children_spec(stream) {
                        Some(es) => Outcome::Match(ExprV::List(es), 1),
                        None => Outcome::Mismatch,
                    }
                },
                _ => Outcome::Mismatch,
            },
        }
    }
}

/// The children parsed from the interior of a group: expressions one after another
/// until no token is left, or `None` where leftover tokens fit no production.
pub open spec fn children_spec(s: Seq<TokenV>) -> Option<Seq<ExprV>>
    decreases s, 4int, 0int,
{
    match parse_spec(s) {
        Outcome::Empty => Some(Seq::empty()),
        Outcome::Mismatch => None,
        Outcome::Match(e, n) => if 1 <= n <= s.len() {
            match children_spec(s.subrange(n as int, s.len() as int)) {
                Some(es) => Some(seq![e] + es),
                None => None,
            }
        } else {
            None
        },
    }
}

pub proof fn lemma_punct_run(s: Seq<TokenV>, k: nat)
    requires
        k <= s.len(),
        forall|j: int| 0 <= j < k ==> #[trigger] s[j] is Punct,
        k == s.len() || !(s[k as int] is Punct),
    ensures
        punct_run(s) == k,
    decreases k,
{
    if k > 0 {
        let t = s.drop_first();
        assert forall|j: int| 0 <= j < k - 1 implies #[trigger] t[j] is Punct by {
            assert(s[j + 1] is Punct);
        }
        lemma_punct_run(t, (k - 1) as nat);
    }
}

pub proof fn lemma_punct_run_bound(s: Seq<TokenV>)
    ensures
        punct_run(s) <= s.len(),
    decreases s.len(),
{
    if s.len() > 0 && s[0] is Punct {
        lemma_punct_run_bound(s.drop_first());
    }
}

/// A production that matches consumes at least one token and no more than there are.
pub proof fn lemma_production_consumes(p: Production, s: Seq<TokenV>)
    ensures
        production_spec(p, s) is Match ==> 1 <= production_spec(p, s)->Match_1 <= s.len(),
{
    lemma_punct_run_bound(s);
}

/// An expression that matches consumes at least one token and no more than there are.
pub proof fn lemma_first_matching_consumes(ps: Seq<Production>, s: Seq<TokenV>)
    ensures
        first_matching_spec(ps, s) is Match ==> 1 <= first_matching_spec(ps, s)->Match_1
            <= s.len(),
    decreases ps.len(),
{
    if ps.len() > 0 {
        lemma_production_consumes(ps[0], s);
        lemma_first_matching_consumes(ps.drop_first(), s);
    }
}

/// How a [`ParseResult`] reports an outcome on the tokens `input`: a match hands back the
/// node and the tokens after the consumed ones; a mismatch hands back `input` itself.
pub open spec fn reports(r: ParseResult, input: Seq<Token>, o: Outcome) -> bool {
    match o {
        Outcome::Match(e, n) => {
            &&& r is Match
            &&& r->Match_0.value@ == e
            &&& r->Match_0.stream@ == input.subrange(n as int, input.len() as int)
        },
        Outcome::Mismatch => r is Missmatch && r->Missmatch_0@ == input,
        Outcome::Empty => r is InputEmpty,
    }
}

/// A node matched at the front of the input, and the tokens after it.
#[derive(Debug)]
pub struct ParseMatch {
    pub stream: Vec<Token>,
    pub value: Expr,
}

/// The outcome of a parser.
#[derive(Debug)]
pub enum ParseResult {
    Match(ParseMatch),
    /// The leading tokens fit no production; the input, untouched.
    Missmatch(Vec<Token>),
    /// There was no token to parse.
    InputEmpty,
}

/// Relies on `String::push`: appends the character.
#[verifier::external_body]
fn push_char(s: &mut String, c: char)
    ensures
        final(s)@ == old(s)@.push(c),
{
    s.push(c)
}

/// The node that a single-token production makes of `t`, or `t` back.
fn convert_single(p: Production, t: Token) -> (r: Result<Expr, Token>)
    requires
        p is Literal || p is Ident || p is RustExpr,
    ensures
        match production_spec(p, seq![t@]) {
            Outcome::Match(e, _) => r is Ok && r->Ok_0@ == e,
            _ => r is Err && r->Err_0 == t,
        },
{
    match p {
        Production::Literal => match t {
            Token::Literal { text, span } => Ok(Expr::Literal(Atom { text, span })),
            _ => Err(t),
        },
        Production::Ident => match t {
            Token::Ident { text, span } => Ok(Expr::Identifier(Atom { text, span })),
            _ => Err(t),
        },
        _ => match t {
            Token::Group { delimiter: Delimiter::Brace, stream, text, span } => {
                Ok(Expr::RustExpr(Atom { text, span }))
            },
            _ => Err(t),
        },
    }
}

/// Runs a single-token production on the first token.
fn parse_single_elem(input: Vec<Token>, p: Production) -> (r: ParseResult)
    requires
        p is Literal || p is Ident || p is RustExpr,
    ensures
        reports(r, input@, production_spec(p, tokens_view(input@))),
{
    proof {
        crate::token::lemma_tokens_view(input@);
    }
    if input.len() == 0 {
        return ParseResult::InputEmpty;
    }
    let ghost s = tokens_view(input@);
    let mut rest = input;
    let t = rest.remove(0);
    proof {
        assert(s[0] == t@);
        assert(seq![t@][0] == t@);
    }
    match convert_single(p, t) {
        Ok(e) => {
            assert(rest@ =~= input@.subrange(1, input@.len() as int));
            ParseResult::Match(ParseMatch { stream: rest, value: e })
        },
        Err(t) => {
            rest.insert(0, t);
            assert(rest@ =~= input@);
            ParseResult::Missmatch(rest)
        },
    }
}

fn parse_literal(input: Vec<Token>) -> (r: ParseResult)
    ensures
        reports(r, input@, production_spec(Production::Literal, tokens_view(input@))),
{
    parse_single_elem(input, Production::Literal)
}

fn parse_ident(input: Vec<Token>) -> (r: ParseResult)
    ensures
        reports(r, input@, production_spec(Production::Ident, tokens_view(input@))),
{
    parse_single_elem(input, Production::Ident)
}

fn parse_rust_expr(input: Vec<Token>) -> (r: ParseResult)
    ensures
        reports(r, input@, production_spec(Production::RustExpr, tokens_view(input@))),
{
    parse_single_elem(input, Production::RustExpr)
}

/// Consumes the longest run of punctuation tokens at the front as one operator.
fn parse_operator(input: Vec<Token>) -> (r: ParseResult)
    ensures
        reports(r, input@, production_spec(Production::Operator, tokens_view(input@))),
{
    let ghost s = tokens_view(input@);
    proof {
        crate::token::lemma_tokens_view(input@);
    }
    if input.len() == 0 {
        return ParseResult::InputEmpty;
    }
    let mut k: usize = 0;
    while k < input.len() && matches!(input[k], Token::Punct { .. })
        invariant
            k <= input.len(),
            s == tokens_view(input@),
            s.len() == input@.len(),
            forall|j: int| 0 <= j < input.len() ==> #[trigger] s[j] == input@[j]@,
            forall|j: int| 0 <= j < k ==> #[trigger] s[j] is Punct,
        decreases input.len() - k,
    {
        k = k + 1;
    }
    proof {
        lemma_punct_run(s, k as nat);
    }
    if k == 0 {
        return ParseResult::Missmatch(input);
    }
    let mut run = input;
    let rest = run.split_off(k);
    proof {
        crate::token::lemma_tokens_view_subrange(input@, 0, k as int);
        assert(run@ =~= input@.subrange(0, k as int));
    }
    let mut text = String::new();
    let mut i: usize = 0;
    while i < k
        invariant
            i <= k,
            k <= input@.len(),
            s.len() == input@.len(),
            k == run@.len(),
            run@ == input@.subrange(0, k as int),
            forall|j: int| 0 <= j < k ==> #[trigger] s[j] is Punct,
            forall|j: int| 0 <= j < input.len() ==> #[trigger] s[j] == input@[j]@,
            text@ == punct_text(s.take(i as int)),
        decreases k - i,
    {
        match &run[i] {
            Token::Punct { ch, .. } => {
                push_char(&mut text, *ch);
            },
            _ => {},
        }
        proof {
            assert(run@[i as int] == input@[i as int]);
            assert(s[i as int] == run@[i as int]@);
            assert(s.take(i + 1).drop_last() =~= s.take(i as int));
            assert(s.take(i + 1).last() == s[i as int]);
        }
        i = i + 1;
    }
    let span = run[0].span().join(run[k - 1].span());
    proof {
        assert(s[0] == run@[0]@);
        assert(s[k - 1] == run@[k - 1]@);
    }
    let value = Expr::Operator(Atom { text, span });
    ParseResult::Match(ParseMatch { stream: rest, value })
}

/// Parses the interior of a group: expressions one after another until the tokens run
/// out (the children) or leftover tokens fit no production (`None`).
fn parse_children(tokens: Vec<Token>) -> (r: Option<Vec<Expr>>)
    ensures
        match children_spec(tokens_view(tokens@)) {
            Some(es) => r is Some && exprs_view(r->0@) == es,
            None => r is None,
        },
    decreases tokens_view(tokens@), 4int, 0int,
{
    let ghost s0 = tokens_view(tokens@);
    let mut res: Vec<Expr> = Vec::new();
    let mut rest = tokens;
    let ghost mut k: int = 0;
    proof {
        crate::token::lemma_tokens_view(tokens@);
        crate::expr::lemma_exprs_view(res@);
        assert(s0.subrange(0, s0.len() as int) =~= s0);
    }
    loop
        invariant
            s0 == tokens_view(tokens@),
            0 <= k <= s0.len(),
            tokens_view(rest@) == s0.subrange(k, s0.len() as int),
            children_spec(s0) == match children_spec(tokens_view(rest@)) {
                Some(es) => Some(exprs_view(res@) + es),
                None => None,
            },
        decreases s0.len() - k,
    {
        proof {
            if k > 0 {
                vstd::seq::axiom_seq_subrange_decreases(s0, k, s0.len() as int);
            } else {
                assert(s0.subrange(0, s0.len() as int) =~= s0);
            }
        }
        let ghost cur = tokens_view(rest@);
        let ghost cur_tokens = rest@;
        proof {
            crate::token::lemma_tokens_view(cur_tokens);
            lemma_first_matching_consumes(expression_order(), cur);
        }
        match parse_expression(rest) {
            ParseResult::Match(m) => {
                proof {
                    let e = m.value@;
                    let n = parse_spec(cur)->Match_1;
                    crate::token::lemma_tokens_view_subrange(cur_tokens, n as int, cur.len() as int);
                    let next = cur.subrange(n as int, cur.len() as int);
                    assert(tokens_view(m.stream@) == next);
                    assert(next =~= s0.subrange(k + n, s0.len() as int));
                    crate::expr::lemma_exprs_view(res@);
                    crate::expr::lemma_exprs_view(res@.push(m.value));
                    assert(exprs_view(res@.push(m.value)) =~= exprs_view(res@).push(e));
                    assert(children_spec(cur) == match children_spec(next) {
                        Some(es) => Some(seq![e] + es),
                        None => None,
                    });
                    if children_spec(next) is Some {
                        let es = children_spec(next)->0;
                        assert(exprs_view(res@).push(e) + es =~= exprs_view(res@) + (seq![e] + es));
                    }
                    k = k + n;
                }
                res.push(m.value);
                rest = m.stream;
            },
            ParseResult::Missmatch(_) => {
                assert(children_spec(cur) is None);
                return None;
            },
            ParseResult::InputEmpty => {
                proof {
                    assert(children_spec(cur) == Some(Seq::<ExprV>::empty()));
                    assert(exprs_view(res@) + Seq::<ExprV>::empty() =~= exprs_view(res@));
                }
                return Some(res);
            },
        }
    }
}

/// Parses a parenthesized group as a list of children; all or nothing: where the
/// interior does not parse, the input comes back whole.
fn parse_list(input: Vec<Token>) -> (r: ParseResult)
    ensures
        reports(r, input@, production_spec(Production::List, tokens_view(input@))),
    decreases tokens_view(input@), 0int, 0int,
{
    proof {
        crate::token::lemma_tokens_view(input@);
    }
    if input.len() == 0 {
        return ParseResult::InputEmpty;
    }
    let children = match &input[0] {
        Token::Group { delimiter: Delimiter::Parenthesis, stream, .. } => {
            let interior = crate::token::copy_tokens(stream.as_slice());
            proof {
                let s = tokens_view(input@);
                vstd::seq::axiom_seq_index_decreases(s, 0);
                assert(s[0] == input@[0]@);
                assert(tokens_view(interior@) == s[0]->Group_stream);
            }
            parse_children(interior)
        },
        _ => None,
    };
    match children {
        Some(l) => {
            let mut rest = input;
            rest.remove(0);
            assert(rest@ =~= input@.subrange(1, input@.len() as int));
            ParseResult::Match(ParseMatch { stream: rest, value: Expr::List(l) })
        },
        None => ParseResult::Missmatch(input),
    }
}

/// Runs one production.
fn run_production(p: Production, input: Vec<Token>) -> (r: ParseResult)
    ensures
        reports(r, input@, production_spec(p, tokens_view(input@))),
    decreases tokens_view(input@), 1int, 0int,
{
    match p {
        Production::Literal => parse_literal(input),
        Production::Ident => parse_ident(input),
        Production::Operator => parse_operator(input),
        Production::RustExpr => parse_rust_expr(input),
        Production::List => parse_list(input),
    }
}

/// Tries the productions in order on the input; the first that matches, or finds the
/// input empty, decides. A mismatch hands the untouched input on to the next.
fn parse_first_matching(parsers: &[Production], tokens: Vec<Token>) -> (r: ParseResult)
    ensures
        reports(r, tokens@, first_matching_spec(parsers@, tokens_view(tokens@))),
    decreases tokens_view(tokens@), 2int, parsers@.len(),
{
    let ghost s = tokens_view(tokens@);
    let ghost given = tokens@;
    let mut input = tokens;
    let mut i: usize = 0;
    proof {
        assert(parsers@.subrange(0, parsers@.len() as int) =~= parsers@);
    }
    while i < parsers.len()
        invariant
            i <= parsers.len(),
            input@ == given,
            given == tokens@,
            s == tokens_view(given),
            first_matching_spec(parsers@, s) == first_matching_spec(
                parsers@.subrange(i as int, parsers@.len() as int),
                s,
            ),
        decreases parsers.len() - i,
    {
        let ghost tail = parsers@.subrange(i as int, parsers@.len() as int);
        proof {
            assert(tail.drop_first() =~= parsers@.subrange(i + 1, parsers@.len() as int));
            assert(tail[0] == parsers@[i as int]);
        }
        let res = run_production(parsers[i], input);
        proof {
            assert(first_matching_spec(tail, s) == match production_spec(tail[0], s) {
                Outcome::Mismatch => first_matching_spec(tail.drop_first(), s),
                o => o,
            });
        }
        match res {
            ParseResult::Missmatch(rest) => {
                input = rest;
            },
            res => {
                return res;
            },
        }
        i = i + 1;
    }
    proof {
        assert(parsers@.subrange(i as int, parsers@.len() as int).len() == 0);
    }
    ParseResult::Missmatch(input)
}

/// Parses one expression from the front of the tokens.
pub fn parse_expression(input: Vec<Token>) -> (r: ParseResult)
    ensures
        reports(r, input@, parse_spec(tokens_view(input@))),
    decreases tokens_view(input@), 3int, 0int,
{
    let order = [
        Production::Literal,
        Production::Ident,
        Production::Operator,
        Production::RustExpr,
        Production::List,
    ];
    proof {
        assert(order@ =~= expression_order());
    }
    parse_first_matching(order.as_slice(), input)
}

/// Parses one expression from the front of the tokens. The caller checks that no
/// tokens remain after a match, where the whole input should be one expression.
pub fn parse(stream: Vec<Token>) -> (r: ParseResult)
    ensures
        reports(r, stream@, parse_spec(tokens_view(stream@))),
{
    parse_expression(stream)
}

/// The operator production consumes exactly the run of punctuation tokens at the front,
/// however long, and nothing after it; where the first token is no punctuation it
/// mismatches.
pub proof fn lemma_operator_consumes_run(s: Seq<TokenV>, k: nat)
    requires
        k <= s.len(),
        forall|j: int| 0 <= j < k ==> #[trigger] s[j] is Punct,
        k == s.len() || !(s[k as int] is Punct),
    ensures
        k > 0 ==> production_spec(Production::Operator, s) == Outcome::Match(
            ExprV::Operator(operator_atom(s, k)),
            k,
        ),
        k == 0 && s.len() > 0 ==> production_spec(Production::Operator, s) == Outcome::Mismatch,
{
    lemma_punct_run(s, k);
}

/// Children that parse one after another and then meet tokens that fit no production
/// make the whole interior fail: a valid prefix is not kept.
pub proof fn lemma_children_fail_after_prefix(t: Seq<TokenV>, k: int)
    requires
        0 <= k <= t.len(),
        children_spec(t.subrange(k, t.len() as int)) is None,
        consumed_by_children(t, k),
    ensures
        children_spec(t) is None,
    decreases k,
{
    if k > 0 {
        lemma_first_matching_consumes(expression_order(), t);
        let n = parse_spec(t)->Match_1 as int;
        let next = t.subrange(n, t.len() as int);
        assert(next.subrange(k - n, next.len() as int) =~= t.subrange(k, t.len() as int));
        lemma_children_fail_after_prefix(next, k - n);
    } else {
        assert(t.subrange(0, t.len() as int) =~= t);
    }
}

/// The first `k` tokens of `t` are consumed by expressions parsed one after another.
pub open spec fn consumed_by_children(t: Seq<TokenV>, k: int) -> bool
    decreases k,
{
    if k <= 0 {
        k == 0
    } else {
        match parse_spec(t) {
            Outcome::Match(_, n) => 1 <= n <= k && n <= t.len() && consumed_by_children(
                t.subrange(n as int, t.len() as int),
                k - n,
            ),
            _ => false,
        }
    }
}

/// A parenthesized group whose interior, after some children that parse, holds tokens
/// that fit no production makes the whole expression mismatch at the group: the children
/// parsed so far are dropped, and the input comes back token for token.
pub proof fn lemma_list_all_or_nothing(input: Seq<Token>, k: int, r: ParseResult)
    requires
        input.len() > 0,
        tokens_view(input)[0] matches TokenV::Group { delimiter: Delimiter::Parenthesis, stream, .. }
            && 0 <= k <= stream.len() && consumed_by_children(stream, k) && parse_spec(
            stream.subrange(k, stream.len() as int),
        ) == Outcome::Mismatch,
        reports(r, input, parse_spec(tokens_view(input))),
    ensures
        production_spec(Production::List, tokens_view(input)) == Outcome::Mismatch,
        parse_spec(tokens_view(input)) == Outcome::Mismatch,
        r is Missmatch,
        r->Missmatch_0@ == input,
{
    let stream = tokens_view(input)[0]->Group_stream;
    assert(children_spec(stream.subrange(k, stream.len() as int)) is None);
    lemma_children_fail_after_prefix(stream, k);
    let s = tokens_view(input);
    crate::token::lemma_tokens_view(input);
    assert(punct_run(s) == 0);
    let ps = expression_order();
    let after_literal = ps.drop_first();
    let after_ident = after_literal.drop_first();
    let after_operator = after_ident.drop_first();
    let after_rust_expr = after_operator.drop_first();
    assert(after_rust_expr =~= seq![Production::List]);
    assert(after_operator =~= seq![Production::RustExpr, Production::List]);
    assert(after_ident =~= seq![Production::Operator, Production::RustExpr, Production::List]);
    assert(after_rust_expr.drop_first().len() == 0);
    assert(first_matching_spec(after_rust_expr.drop_first(), s) == Outcome::Mismatch);
    assert(after_rust_expr[0] == Production::List);
    assert(production_spec(Production::List, s) == Outcome::Mismatch);
    assert(production_spec(Production::RustExpr, s) == Outcome::Mismatch);
    assert(production_spec(Production::Operator, s) == Outcome::Mismatch);
    assert(first_matching_spec(after_rust_expr, s) == Outcome::Mismatch);
    assert(first_matching_spec(after_operator, s) == Outcome::Mismatch);
    assert(first_matching_spec(after_ident, s) == Outcome::Mismatch);
    assert(first_matching_spec(after_literal, s) == Outcome::Mismatch);
    assert(first_matching_spec(ps, s) == Outcome::Mismatch);
}

} // verus!
