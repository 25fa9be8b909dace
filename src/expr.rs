//! The parsed tree and its rendering.
use vstd::prelude::*;

use crate::errors::{
    CastError, ElemNumberError, HeadTailSplitError, ListEmptyError, PairSplitError,
    TryFlatMapError,
};
use crate::seq::Sequence;
use crate::token::Span;

verus! {

/// The text of a leaf node and the source span it covers.
#[derive(Debug, PartialEq, Eq)]
pub struct Atom {
    pub text: String,
    pub span: Span,
}

/// The mathematical value of an [`Atom`].
pub ghost struct AtomV {
    pub text: Seq<char>,
    pub span: Span,
}

impl View for Atom {
    type V = AtomV;

    open spec fn view(&self) -> AtomV {
        AtomV { text: self.text@, span: self.span }
    }
}

impl Atom {
    pub fn to_string(&self) -> (r: String)
        ensures
            r@ == self.text@,
    {
        self.text.clone()
    }
}

/// A node of the parsed tree.
#[derive(Debug, PartialEq, Eq)]
pub enum Expr {
    /// A literal token: a number, a quoted string, ...
    Literal(Atom),
    /// A bare name.
    Identifier(Atom),
    /// A run of consecutive punctuation marks, as one node.
    Operator(Atom),
    /// The verbatim text of a brace-delimited group, never parsed.
    RustExpr(Atom),
    /// The children parsed from a parenthesized group, in source order.
    List(Vec<Expr>),
}

/// The mathematical value of an [`Expr`].
pub ghost enum ExprV {
    Literal(AtomV),
    Identifier(AtomV),
    Operator(AtomV),
    RustExpr(AtomV),
    List(Seq<ExprV>),
}

/// The values of a sequence of nodes.
pub open spec fn exprs_view(s: Seq<Expr>) -> Seq<ExprV>
    decreases s,
{
    if s.len() == 0 {
        Seq::empty()
    } else {
        exprs_view(s.drop_last()).push(s.last().view())
    }
}

impl View for Expr {
    type V = ExprV;

    open spec fn view(&self) -> ExprV
        decreases self,
    {
        match self {
            Expr::Literal(a) => ExprV::Literal(a@),
            Expr::Identifier(a) => ExprV::Identifier(a@),
            Expr::Operator(a) => ExprV::Operator(a@),
            Expr::RustExpr(a) => ExprV::RustExpr(a@),
            Expr::List(l) => ExprV::List(exprs_view(l@)),
        }
    }
}

pub proof fn lemma_exprs_view(s: Seq<Expr>)
    ensures
        exprs_view(s).len() == s.len(),
        forall|i: int| 0 <= i < s.len() ==> #[trigger] exprs_view(s)[i] == s[i]@,
    decreases s.len(),
{
    if s.len() > 0 {
        lemma_exprs_view(s.drop_last());
        assert(exprs_view(s) == exprs_view(s.drop_last()).push(s.last()@));
        assert forall|i: int| 0 <= i < s.len() implies #[trigger] exprs_view(s)[i] == s[i]@ by {
            if i < s.len() - 1 {
                assert(exprs_view(s.drop_last())[i] == s.drop_last()[i]@);
            }
        }
    }
}

/// The text of a node: a leaf's own text, a list as `(a, b, c)`.
pub open spec fn render(e: ExprV) -> Seq<char>
    decreases e,
{
    match e {
        ExprV::Literal(a) => a.text,
        ExprV::Identifier(a) => a.text,
        ExprV::Operator(a) => a.text,
        ExprV::RustExpr(a) => a.text,
        ExprV::List(es) => seq!['('] + render_joined(es) + seq![')'],
    }
}

/// The renderings of the nodes, separated by `, `.
pub open spec fn render_joined(es: Seq<ExprV>) -> Seq<char>
    decreases es,
{
    if es.len() == 0 {
        Seq::empty()
    } else if es.len() == 1 {
        render(es[0])
    } else {
        render_joined(es.drop_last()) + seq![',', ' '] + render(es.last())
    }
}

impl Expr {
    /// The text of this node, as [`render`] gives it.
    pub fn to_string(&self) -> (r: String)
        ensures
            r@ == render(self@),
        decreases self,
    {
        match self {
            Expr::Literal(a) => a.to_string(),
            Expr::Identifier(a) => a.to_string(),
            Expr::Operator(a) => a.to_string(),
            Expr::RustExpr(a) => a.to_string(),
            Expr::List(l) => {
                proof {
                    vstd::std_specs::vec::axiom_vec_decreases_to_view(*l);
                }
                render_list(l.as_slice())
            },
        }
    }
}

fn render_list(l: &[Expr]) -> (r: String)
    ensures
        r@ == seq!['('] + render_joined(exprs_view(l@)) + seq![')'],
    decreases l@,
{
    let mut s = String::from_str("(");
    let mut i: usize = 0;
    proof {
        reveal_strlit("(");
        lemma_exprs_view(l@);
    }
    while i < l.len()
        invariant
            i <= l.len(),
            exprs_view(l@).len() == l.len(),
            forall|j: int| 0 <= j < l.len() ==> #[trigger] exprs_view(l@)[j] == l@[j]@,
            s@ == seq!['('] + render_joined(exprs_view(l@).take(i as int)),
        decreases l.len() - i,
    {
        if i > 0 {
            s.append(", ");
            proof {
                reveal_strlit(", ");
            }
        }
        proof {
            vstd::seq::axiom_seq_index_decreases(l@, i as int);
        }
        let child = l[i].to_string();
        s.append(child.as_str());
        proof {
            let es = exprs_view(l@);
            let t = es.take(i + 1);
            assert(t.drop_last() =~= es.take(i as int));
            assert(t.last() == l@[i as int]@);
            if i == 0 {
                assert(es.take(0) =~= Seq::<ExprV>::empty());
            }
        }
        i = i + 1;
    }
    s.append(")");
    proof {
        reveal_strlit(")");
        assert(exprs_view(l@).take(l.len() as int) =~= exprs_view(l@));
    }
    s
}

/// `e` is the error of a cast to the kind named `desired` of the node `actual`.
pub open spec fn cast_error_of(e: CastError, desired: Seq<char>, actual: ExprV) -> bool {
    e.desired@ == desired && e.actual@ == render(actual)
}

/// The text of a literal is a quoted string: it starts and ends with `"`.
pub open spec fn is_quoted(t: Seq<char>) -> bool {
    t.len() >= 2 && t[0] == '"' && t[t.len() - 1] == '"'
}

/// The sequences one after another.
pub open spec fn concat_all<T>(parts: Seq<Seq<T>>) -> Seq<T>
    decreases parts.len(),
{
    if parts.len() == 0 {
        Seq::empty()
    } else {
        concat_all(parts.drop_last()) + parts.last()
    }
}

/// The views of the sequences.
pub open spec fn views_of<T>(parts: Seq<Sequence<T>>) -> Seq<Seq<T>> {
    parts.map_values(|p: Sequence<T>| p@)
}

/// `f` may run on each of `items`.
pub open spec fn callable_on_all<T, E, F: Fn(&Expr) -> Result<Sequence<T>, E>>(
    f: F,
    items: Seq<Expr>,
) -> bool {
    forall|i: int| 0 <= i < items.len() ==> call_requires(f, (&items[i],))
}

/// `f` succeeded on each of `items`, and `out` is what it returned, concatenated in order.
pub open spec fn flat_mapped<T, E, F: Fn(&Expr) -> Result<Sequence<T>, E>>(
    f: F,
    items: Seq<Expr>,
    out: Seq<T>,
) -> bool {
    exists|parts: Seq<Sequence<T>>|
        {
            &&& parts.len() == items.len()
            &&& forall|i: int|
                0 <= i < items.len() ==> call_ensures(f, (&items[i],), Ok(#[trigger] parts[i]))
            &&& out == concat_all(views_of(parts))
        }
}

/// `f` succeeded on a prefix of `items` and then failed with `e` on the next one:
/// the first failure, from the left.
pub open spec fn first_failure<T, E, F: Fn(&Expr) -> Result<Sequence<T>, E>>(
    f: F,
    items: Seq<Expr>,
    e: E,
) -> bool {
    exists|parts: Seq<Sequence<T>>|
        {
            &&& parts.len() < items.len()
            &&& forall|i: int|
                0 <= i < parts.len() ==> call_ensures(f, (&items[i],), Ok(#[trigger] parts[i]))
            &&& call_ensures(f, (&items[parts.len() as int],), Err(e))
        }
}

/// Applies `f` to each of `items` in order and concatenates what it returns; stops at the
/// first failure and returns it.
fn flat_map_items<T, E, F: Fn(&Expr) -> Result<Sequence<T>, E>>(items: &[Expr], f: F) -> (r:
    Result<Sequence<T>, E>)
    requires
        callable_on_all(f, items@),
    ensures
        match r {
            Ok(out) => flat_mapped(f, items@, out@),
            Err(e) => first_failure(f, items@, e),
        },
{
    let mut out: Sequence<T> = Sequence::new();
    let ghost mut parts: Seq<Sequence<T>> = Seq::empty();
    let mut i: usize = 0;
    while i < items.len()
        invariant
            i <= items.len(),
            callable_on_all(f, items@),
            parts.len() == i,
            forall|j: int| 0 <= j < i ==> call_ensures(f, (&items@[j],), Ok(#[trigger] parts[j])),
            out@ == concat_all(views_of(parts)),
        decreases items.len() - i,
    {
        let res = f(&items[i]);
        match res {
            Ok(part) => {
                proof {
                    let old_parts = parts;
                    parts = parts.push(part);
                    assert(parts.drop_last() =~= old_parts);
                    assert(views_of(parts).drop_last() =~= views_of(old_parts));
                }
                out.append(part);
            },
            Err(e) => {
                assert(call_ensures(f, (&items@[parts.len() as int],), Err(e)));
                return Err(e);
            },
        }
        i = i + 1;
    }
    assert(parts.len() == items@.len());
    Ok(out)
}

impl Expr {
    pub fn as_literal(&self) -> (r: Result<&Atom, CastError>)
        ensures
            match self@ {
                ExprV::Literal(a) => r is Ok && r->Ok_0@ == a,
                _ => r is Err && cast_error_of(r->Err_0, "literal"@, self@),
            },
    {
        if let Expr::Literal(a) = self {
            Ok(a)
        } else {
            Err(CastError::new("literal", self))
        }
    }

    /// The literal as a quoted string.
    pub fn as_str_lit(&self) -> (r: Result<StrLit, CastError>)
        ensures
            match self@ {
                ExprV::Literal(a) if is_quoted(a.text) => r is Ok && r->Ok_0@ == a.text,
                _ => r is Err && cast_error_of(r->Err_0, "string literal"@, self@),
            },
    {
        if let Expr::Literal(a) = self {
            let t = a.text.as_str();
            let n = t.unicode_len();
            if n >= 2 && t.get_char(0) == '"' && t.get_char(n - 1) == '"' {
                return Ok(StrLit { text: a.text.clone() });
            }
        }
        Err(CastError::new("string literal", self))
    }

    pub fn as_identifier(&self) -> (r: Result<&Atom, CastError>)
        ensures
            match self@ {
                ExprV::Identifier(a) => r is Ok && r->Ok_0@ == a,
                _ => r is Err && cast_error_of(r->Err_0, "identifier"@, self@),
            },
    {
        if let Expr::Identifier(a) = self {
            Ok(a)
        } else {
            Err(CastError::new("identifier", self))
        }
    }

    pub fn as_operator(&self) -> (r: Result<&Atom, CastError>)
        ensures
            match self@ {
                ExprV::Operator(a) => r is Ok && r->Ok_0@ == a,
                _ => r is Err && cast_error_of(r->Err_0, "punctuation"@, self@),
            },
    {
        if let Expr::Operator(a) = self {
            Ok(a)
        } else {
            Err(CastError::new("punctuation", self))
        }
    }

    pub fn as_rust_expr(&self) -> (r: Result<&Atom, CastError>)
        ensures
            match self@ {
                ExprV::RustExpr(a) => r is Ok && r->Ok_0@ == a,
                _ => r is Err && cast_error_of(r->Err_0, "rust_expr"@, self@),
            },
    {
        if let Expr::RustExpr(a) = self {
            Ok(a)
        } else {
            Err(CastError::new("rust_expr", self))
        }
    }

    /// The children of a list.
    pub fn as_slice(&self) -> (r: Result<&[Expr], CastError>)
        ensures
            match self@ {
                ExprV::List(es) => r is Ok && exprs_view(r->Ok_0@) == es,
                _ => r is Err && cast_error_of(r->Err_0, "slice"@, self@),
            },
    {
        if let Expr::List(l) = self {
            Ok(l.as_slice())
        } else {
            Err(CastError::new("slice", self))
        }
    }

    /// The first child of a list, and a view of the others.
    pub fn head_tail_split(&self) -> (r: Result<(&Expr, BorrowedList), HeadTailSplitError>)
        ensures
            match self@ {
                ExprV::List(es) => if es.len() == 0 {
                    r is Err && r->Err_0 is ListEmptyError
                } else {
                    r is Ok && r->Ok_0.0@ == es[0] && r->Ok_0.1@ == es.drop_first()
                },
                _ => r is Err && r->Err_0 is CastError && cast_error_of(
                    r->Err_0->CastError_0,
                    "slice"@,
                    self@,
                ),
            },
    {
        match self.as_slice() {
            Ok(l) => {
                let b = BorrowedList { list: l };
                match b.head_tail_split() {
                    Ok(p) => Ok(p),
                    Err(e) => Err(HeadTailSplitError::ListEmptyError(e)),
                }
            },
            Err(e) => Err(HeadTailSplitError::CastError(e)),
        }
    }

    /// The two children of a list of exactly two.
    pub fn pair_split(&self) -> (r: Result<(&Expr, &Expr), PairSplitError>)
        ensures
            match self@ {
                ExprV::List(es) => if es.len() == 2 {
                    r is Ok && r->Ok_0.0@ == es[0] && r->Ok_0.1@ == es[1]
                } else {
                    r is Err && r->Err_0 is ElemNumberError && r->Err_0->ElemNumberError_0.actual@
                        == render(self@)
                },
                _ => r is Err && r->Err_0 is CastError && cast_error_of(
                    r->Err_0->CastError_0,
                    "slice"@,
                    self@,
                ),
            },
    {
        match self.as_slice() {
            Ok(l) => {
                let b = BorrowedList { list: l };
                match b.pair_split() {
                    Ok(p) => Ok(p),
                    Err(e) => Err(PairSplitError::ElemNumberError(e)),
                }
            },
            Err(e) => Err(PairSplitError::CastError(e)),
        }
    }

    /// Applies `f` to each child of a list in order and concatenates what it returns;
    /// stops at the first failure.
    pub fn try_flat_map<T, E, F: Fn(&Expr) -> Result<Sequence<T>, E>>(&self, f: F) -> (r: Result<
        Sequence<T>,
        TryFlatMapError<E>,
    >)
        requires
            self is List ==> callable_on_all(f, self->List_0@),
        ensures
            match self {
                Expr::List(l) => match r {
                    Ok(out) => flat_mapped(f, l@, out@),
                    Err(TryFlatMapError::FnError(e)) => first_failure(f, l@, e),
                    Err(TryFlatMapError::CastError(_)) => false,
                },
                _ => r is Err && r->Err_0 is CastError && cast_error_of(
                    r->Err_0->CastError_0,
                    "slice"@,
                    self@,
                ),
            },
    {
        if let Expr::List(l) = self {
            match flat_map_items(l.as_slice(), f) {
                Ok(out) => Ok(out),
                Err(e) => Err(TryFlatMapError::FnError(e)),
            }
        } else {
            Err(TryFlatMapError::CastError(CastError::new("slice", self)))
        }
    }
}

/// A view of the children of a list from some point on, borrowed from the list.
#[derive(Debug)]
pub struct BorrowedList<'a> {
    list: &'a [Expr],
}

impl<'a> View for BorrowedList<'a> {
    type V = Seq<ExprV>;

    closed spec fn view(&self) -> Seq<ExprV> {
        exprs_view(self.list@)
    }
}

impl<'a> BorrowedList<'a> {
    /// The nodes that this view covers.
    pub closed spec fn items(&self) -> Seq<Expr> {
        self.list@
    }

    pub proof fn lemma_items(&self)
        ensures
            self@ == exprs_view(self.items()),
    {
    }

    /// Applies `f` to each element in order and concatenates what it returns; stops at
    /// the first failure.
    pub fn try_flat_map<T, E, F: Fn(&Expr) -> Result<Sequence<T>, E>>(&self, f: F) -> (r: Result<
        Sequence<T>,
        E,
    >)
        requires
            callable_on_all(f, self.items()),
        ensures
            match r {
                Ok(out) => flat_mapped(f, self.items(), out@),
                Err(e) => first_failure(f, self.items(), e),
            },
    {
        flat_map_items(self.list, f)
    }

    pub fn as_slice(&self) -> (r: &[Expr])
        ensures
            r@ == self.items(),
            exprs_view(r@) == self@,
    {
        self.list
    }

    /// The first element and a view of the others.
    pub fn head_tail_split(&self) -> (r: Result<(&'a Expr, BorrowedList<'a>), ListEmptyError>)
        ensures
            self@.len() == 0 <==> r is Err,
            r is Ok ==> r->Ok_0.0@ == self@[0] && r->Ok_0.1@ == self@.drop_first(),
    {
        proof {
            lemma_exprs_view(self.list@);
        }
        if self.list.len() == 0 {
            Err(ListEmptyError)
        } else {
            let rest = vstd::slice::slice_subrange(self.list, 1, self.list.len());
            proof {
                lemma_exprs_view(rest@);
                assert(exprs_view(rest@) =~= exprs_view(self.list@).drop_first());
            }
            Ok((&self.list[0], BorrowedList { list: rest }))
        }
    }

    /// The two elements of a view of exactly two.
    pub fn pair_split(&self) -> (r: Result<(&'a Expr, &'a Expr), ElemNumberError>)
        ensures
            self@.len() == 2 <==> r is Ok,
            r is Ok ==> r->Ok_0.0@ == self@[0] && r->Ok_0.1@ == self@[1],
            r is Err ==> r->Err_0.actual@ == render(ExprV::List(self@)),
    {
        proof {
            lemma_exprs_view(self.list@);
        }
        if self.list.len() == 2 {
            Ok((&self.list[0], &self.list[1]))
        } else {
            Err(ElemNumberError { actual: render_list(self.list) })
        }
    }
}

/// A literal that is a quoted string.
#[derive(Debug)]
pub struct StrLit {
    text: String,
}

impl View for StrLit {
    type V = Seq<char>;

    closed spec fn view(&self) -> Seq<char> {
        self.text@
    }
}

impl StrLit {
    #[verifier::type_invariant]
    spec fn quoted(&self) -> bool {
        is_quoted(self.text@)
    }

    /// The text between the quotes.
    pub fn contained_string(&self) -> (r: &str)
        ensures
            r@ == self@.subrange(1, self@.len() - 1),
    {
        proof {
            use_type_invariant(self);
        }
        let t = self.text.as_str();
        let n = t.unicode_len();
        t.substring_char(1, n - 1)
    }
}

} // verus!
