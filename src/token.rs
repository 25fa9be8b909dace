//! The tokens the parser consumes: plain values handed over by a tokenizer.
use vstd::prelude::*;

verus! {

/// A byte range in the source text that a token came from.
#[derive(Clone, Copy, Debug, PartialEq, Eq, Structural)]
pub struct Span {
    pub lo: usize,
    pub hi: usize,
}

impl Span {
    /// The smallest span that covers both spans.
    pub open spec fn covering(self, other: Span) -> Span {
        Span {
            lo: if self.lo <= other.lo { self.lo } else { other.lo },
            hi: if self.hi >= other.hi { self.hi } else { other.hi },
        }
    }

    pub fn join(self, other: Span) -> (r: Span)
        ensures
            r == self.covering(other),
    {
        Span {
            lo: if self.lo <= other.lo { self.lo } else { other.lo },
            hi: if self.hi >= other.hi { self.hi } else { other.hi },
        }
    }
}

/// How a group of tokens is delimited.
#[derive(Clone, Copy, Debug, PartialEq, Eq, Structural)]
pub enum Delimiter {
    /// `( ... )`
    Parenthesis,
    /// `{ ... }`
    Brace,
    /// `[ ... ]`
    Bracket,
    /// A group without visible delimiters.
    Invisible,
}

/// One lexical token.
#[derive(Debug, PartialEq, Eq)]
pub enum Token {
    Literal { text: String, span: Span },
    Ident { text: String, span: Span },
    Punct { ch: char, span: Span },
    /// A delimited group: its nested tokens, and its text as the tokenizer rendered it.
    Group { delimiter: Delimiter, stream: Vec<Token>, text: String, span: Span },
}

/// The mathematical value of a [`Token`].
pub ghost enum TokenV {
    Literal { text: Seq<char>, span: Span },
    Ident { text: Seq<char>, span: Span },
    Punct { ch: char, span: Span },
    Group { delimiter: Delimiter, stream: Seq<TokenV>, text: Seq<char>, span: Span },
}

/// The span of a token.
pub open spec fn span_of(t: TokenV) -> Span {
    match t {
        TokenV::Literal { span, .. } => span,
        TokenV::Ident { span, .. } => span,
        TokenV::Punct { span, .. } => span,
        TokenV::Group { span, .. } => span,
    }
}

/// The values of a sequence of tokens.
pub open spec fn tokens_view(s: Seq<Token>) -> Seq<TokenV>
    decreases s,
{
    if s.len() == 0 {
        Seq::empty()
    } else {
        tokens_view(s.drop_last()).push(s.last().view())
    }
}

impl View for Token {
    type V = TokenV;

    open spec fn view(&self) -> TokenV
        decreases self,
    {
        match self {
            Token::Literal { text, span } => TokenV::Literal { text: text@, span: *span },
            Token::Ident { text, span } => TokenV::Ident { text: text@, span: *span },
            Token::Punct { ch, span } => TokenV::Punct { ch: *ch, span: *span },
            Token::Group { delimiter, stream, text, span } => TokenV::Group {
                delimiter: *delimiter,
                stream: tokens_view(stream@),
                text: text@,
                span: *span,
            },
        }
    }
}

pub proof fn lemma_tokens_view(s: Seq<Token>)
    ensures
        tokens_view(s).len() == s.len(),
        forall|i: int| 0 <= i < s.len() ==> #[trigger] tokens_view(s)[i] == s[i]@,
    decreases s.len(),
{
    if s.len() > 0 {
        lemma_tokens_view(s.drop_last());
        assert(tokens_view(s) == tokens_view(s.drop_last()).push(s.last()@));
        assert forall|i: int| 0 <= i < s.len() implies #[trigger] tokens_view(s)[i] == s[i]@ by {
            if i < s.len() - 1 {
                assert(tokens_view(s.drop_last())[i] == s.drop_last()[i]@);
            }
        }
    }
}

/// The view of a part of a token sequence is that part of its view.
pub proof fn lemma_tokens_view_subrange(s: Seq<Token>, i: int, j: int)
    requires
        0 <= i <= j <= s.len(),
    ensures
        tokens_view(s.subrange(i, j)) == tokens_view(s).subrange(i, j),
{
    lemma_tokens_view(s);
    lemma_tokens_view(s.subrange(i, j));
    assert(tokens_view(s.subrange(i, j)) =~= tokens_view(s).subrange(i, j));
}

impl Token {
    pub fn span(&self) -> (r: Span)
        ensures
            r == span_of(self@),
    {
        match self {
            Token::Literal { span, .. } => *span,
            Token::Ident { span, .. } => *span,
            Token::Punct { span, .. } => *span,
            Token::Group { span, .. } => *span,
        }
    }

    /// A copy of this token, nested tokens included.
    pub fn deep_copy(&self) -> (r: Token)
        ensures
            r@ == self@,
        decreases self,
    {
        match self {
            Token::Literal { text, span } => Token::Literal { text: text.clone(), span: *span },
            Token::Ident { text, span } => Token::Ident { text: text.clone(), span: *span },
            Token::Punct { ch, span } => Token::Punct { ch: *ch, span: *span },
            Token::Group { delimiter, stream, text, span } => {
                proof {
                    vstd::std_specs::vec::axiom_vec_decreases_to_view(*stream);
                }
                Token::Group {
                    delimiter: *delimiter,
                    stream: copy_tokens(stream.as_slice()),
                    text: text.clone(),
                    span: *span,
                }
            },
        }
    }
}

/// A copy of each token, in order.
pub fn copy_tokens(s: &[Token]) -> (r: Vec<Token>)
    ensures
        tokens_view(r@) == tokens_view(s@),
    decreases s@,
{
    let mut r: Vec<Token> = Vec::new();
    let mut i: usize = 0;
    while i < s.len()
        invariant
            i <= s.len(),
            r@.len() == i,
            forall|j: int| 0 <= j < i ==> #[trigger] r@[j]@ == s@[j]@,
        decreases s.len() - i,
    {
        proof {
            vstd::seq::axiom_seq_index_decreases(s@, i as int);
        }
        let t = s[i].deep_copy();
        r.push(t);
        i = i + 1;
    }
    proof {
        lemma_tokens_view(r@);
        lemma_tokens_view(s@);
        assert(tokens_view(r@) =~= tokens_view(s@));
    }
    r
}

} // verus!
