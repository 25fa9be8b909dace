//! Failures of the structural accessors, as values.
use vstd::prelude::*;

use crate::expr::{render, Expr};

verus! {

/// The quoted, escaped form of a text, as `{:?}` prints a `str`.
pub uninterp spec fn debug_quoted(s: Seq<char>) -> Seq<char>;

/// Relies on `<str as Debug>::fmt`: it writes the text quoted and escaped, and what
/// it writes depends on the text alone.
#[verifier::external_body]
fn debug_text(s: &str) -> (r: String)
    ensures
        r@ == debug_quoted(s@),
{
    format!("{:?}", s)
}

/// A value that can say in words what went wrong.
pub trait Describe {
    spec fn description(&self) -> Seq<char>;

    fn describe(&self) -> (r: String)
        ensures
            r@ == self.description(),
    ;
}

/// A node was not of the kind that was asked for.
#[derive(Debug)]
pub struct CastError {
    /// The kind that was asked for.
    pub desired: &'static str,
    /// The rendering of the node that was found.
    pub actual: String,
}

impl CastError {
    pub fn new(desired: &'static str, actual: &Expr) -> (r: CastError)
        ensures
            r.desired@ == desired@,
            r.actual@ == render(actual@),
    {
        CastError { desired, actual: actual.to_string() }
    }
}

impl Describe for CastError {
    open spec fn description(&self) -> Seq<char> {
        "tried to get "@ + debug_quoted(self.actual@) + " as "@ + self.desired@
    }

    fn describe(&self) -> (r: String) {
        let mut s = String::from_str("tried to get ");
        let quoted = debug_text(self.actual.as_str());
        s.append(quoted.as_str());
        s.append(" as ");
        s.append(self.desired);
        s
    }
}

/// A list had no element to split off.
#[derive(Debug)]
pub struct ListEmptyError;

impl Describe for ListEmptyError {
    open spec fn description(&self) -> Seq<char> {
        "List is empty"@
    }

    fn describe(&self) -> (r: String) {
        String::from_str("List is empty")
    }
}

/// A list did not have the number of elements an operation needs.
#[derive(Debug)]
pub struct ElemNumberError {
    /// The rendering of the list that was found.
    pub actual: String,
}

impl ElemNumberError {
    pub fn new(actual: &Expr) -> (r: ElemNumberError)
        ensures
            r.actual@ == render(actual@),
    {
        ElemNumberError { actual: actual.to_string() }
    }
}

impl Describe for ElemNumberError {
    open spec fn description(&self) -> Seq<char> {
        "wrong number of elements for this operation. "@ + debug_quoted(self.actual@)
    }

    fn describe(&self) -> (r: String) {
        let mut s = String::from_str("wrong number of elements for this operation. ");
        let quoted = debug_text(self.actual.as_str());
        s.append(quoted.as_str());
        s
    }
}

/// Why a list could not be split into its first element and the rest.
#[derive(Debug)]
pub enum HeadTailSplitError {
    CastError(CastError),
    ListEmptyError(ListEmptyError),
}

impl From<CastError> for HeadTailSplitError {
    fn from(e: CastError) -> (r: HeadTailSplitError) {
        HeadTailSplitError::CastError(e)
    }
}

impl vstd::std_specs::convert::FromSpecImpl<CastError> for HeadTailSplitError {
    open spec fn obeys_from_spec() -> bool {
        true
    }

    open spec fn from_spec(e: CastError) -> HeadTailSplitError {
        HeadTailSplitError::CastError(e)
    }
}

impl From<ListEmptyError> for HeadTailSplitError {
    fn from(e: ListEmptyError) -> (r: HeadTailSplitError) {
        HeadTailSplitError::ListEmptyError(e)
    }
}

impl vstd::std_specs::convert::FromSpecImpl<ListEmptyError> for HeadTailSplitError {
    open spec fn obeys_from_spec() -> bool {
        true
    }

    open spec fn from_spec(e: ListEmptyError) -> HeadTailSplitError {
        HeadTailSplitError::ListEmptyError(e)
    }
}

impl Describe for HeadTailSplitError {
    open spec fn description(&self) -> Seq<char> {
        match self {
            HeadTailSplitError::CastError(e) => e.description(),
            HeadTailSplitError::ListEmptyError(e) => e.description(),
        }
    }

    fn describe(&self) -> (r: String) {
        match self {
            HeadTailSplitError::CastError(e) => e.describe(),
            HeadTailSplitError::ListEmptyError(e) => e.describe(),
        }
    }
}

/// Why a list could not be split into exactly two elements.
#[derive(Debug)]
pub enum PairSplitError {
    CastError(CastError),
    ElemNumberError(ElemNumberError),
}

impl From<CastError> for PairSplitError {
    fn from(e: CastError) -> (r: PairSplitError) {
        PairSplitError::CastError(e)
    }
}

impl vstd::std_specs::convert::FromSpecImpl<CastError> for PairSplitError {
    open spec fn obeys_from_spec() -> bool {
        true
    }

    open spec fn from_spec(e: CastError) -> PairSplitError {
        PairSplitError::CastError(e)
    }
}

impl From<ElemNumberError> for PairSplitError {
    fn from(e: ElemNumberError) -> (r: PairSplitError) {
        PairSplitError::ElemNumberError(e)
    }
}

impl vstd::std_specs::convert::FromSpecImpl<ElemNumberError> for PairSplitError {
    open spec fn obeys_from_spec() -> bool {
        true
    }

    open spec fn from_spec(e: ElemNumberError) -> PairSplitError {
        PairSplitError::ElemNumberError(e)
    }
}

impl Describe for PairSplitError {
    open spec fn description(&self) -> Seq<char> {
        match self {
            PairSplitError::CastError(e) => e.description(),
            PairSplitError::ElemNumberError(e) => e.description(),
        }
    }

    fn describe(&self) -> (r: String) {
        match self {
            PairSplitError::CastError(e) => e.describe(),
            PairSplitError::ElemNumberError(e) => e.describe(),
        }
    }
}

/// Why a flat map over a list stopped: the receiver was no list, or the
/// function failed on an element.
#[derive(Debug)]
pub enum TryFlatMapError<E> {
    CastError(CastError),
    FnError(E),
}

impl<E> From<E> for TryFlatMapError<E> {
    fn from(e: E) -> (r: TryFlatMapError<E>) {
        TryFlatMapError::FnError(e)
    }
}

impl<E> vstd::std_specs::convert::FromSpecImpl<E> for TryFlatMapError<E> {
    open spec fn obeys_from_spec() -> bool {
        true
    }

    open spec fn from_spec(e: E) -> TryFlatMapError<E> {
        TryFlatMapError::FnError(e)
    }
}

impl<E: Describe> Describe for TryFlatMapError<E> {
    open spec fn description(&self) -> Seq<char> {
        match self {
            TryFlatMapError::CastError(e) => e.description(),
            TryFlatMapError::FnError(e) => e.description(),
        }
    }

    fn describe(&self) -> (r: String) {
        match self {
            TryFlatMapError::CastError(e) => e.describe(),
            TryFlatMapError::FnError(e) => e.describe(),
        }
    }
}

} // verus!
