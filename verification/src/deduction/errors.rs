use vstd::prelude::*;

use super::directory::{
    AxiomRef, DefinitionRef, HypothesisRef, ProofRef, ProofStepRef, SymbolRef, TheoremRef, TypeRef,
    VariableRef,
};

verus! {

#[derive(Clone, Copy, PartialEq, Eq, Debug, Structural)]
pub enum TypeCheckingError {
    InvalidSystemRef,
}

#[derive(Clone, Copy, PartialEq, Eq, Debug, Structural)]
pub enum TypeSignatureCheckingError {
    InvalidTypeRef(TypeRef),
}

#[derive(Clone, Copy, PartialEq, Eq, Debug, Structural)]
pub enum SymbolCheckingError {
    InvalidSystemRef,
    TypeSignatureError(TypeSignatureCheckingError),
}

#[derive(Clone, Copy, PartialEq, Eq, Debug, Structural)]
pub enum DefinitionCheckingError {
    InvalidSystemRef,
    LocalError(LocalCheckingError),
    TypeSignatureError(TypeSignatureCheckingError),
    ExpandedError(FormulaCheckingError),
    /// The declared type of the definition is not the type of its body.
    ExpandedTypeMismatch,
}

#[derive(Clone, Copy, PartialEq, Eq, Debug, Structural)]
pub enum VariableCheckingError {
    TypeSignatureError(TypeSignatureCheckingError),
}

#[derive(Clone, Copy, PartialEq, Eq, Debug, Structural)]
pub enum FormulaCheckingError {
    InvalidSymbolRef(SymbolRef),
    InvalidVariableRef(VariableRef),
    InvalidDefinitionRef(DefinitionRef),
    DefinitionWrongArity(DefinitionRef),
    /// A function is applied to an input of a type it does not take, or what is applied is not a
    /// function.
    ApplicationTypeMismatch,
    /// The input at this position of a use of a definition is not of the type of the
    /// definition's input variable.
    DefinitionInputTypeMismatch(DefinitionRef, usize),
}

#[derive(Clone, Copy, PartialEq, Eq, Debug, Structural)]
pub enum AxiomCheckingError {
    InvalidSystemRef,
    LocalError(LocalCheckingError),
    PremiseError(HypothesisRef, FormulaCheckingError),
    AssertionError(FormulaCheckingError),
}

#[derive(Clone, Copy, PartialEq, Eq, Debug, Structural)]
pub enum TheoremCheckingError {
    InvalidSystemRef,
    LocalError(LocalCheckingError),
    PremiseError(HypothesisRef, FormulaCheckingError),
    AssertionError(FormulaCheckingError),
}

#[derive(Clone, Copy, PartialEq, Eq, Debug, Structural)]
pub enum ProofStepCheckingError {
    InvalidAxiomRef,
    InvalidTheoremRef,
    InvalidHypothesisRef,
    FormulaError(FormulaCheckingError),
    AxiomNotSubstitutable,
    AxiomAssertionNotSubstitutable,
    TheoremNotSubstitutable,
    TheoremAssertionNotSubstitutable,
    HypothesisMismatch,
    DefinitionMismatch,
}

#[derive(Clone, Copy, PartialEq, Eq, Debug, Structural)]
pub enum ProofCheckingError {
    InvalidTheoremRef,
    StepError(ProofStepRef, ProofStepCheckingError),
    Empty,
    AssertionMismatch,
}

#[derive(Clone, Copy, PartialEq, Eq, Debug, Structural)]
pub enum LocalCheckingError {
    VariableError(VariableRef, VariableCheckingError),
}

#[derive(Clone, Copy, PartialEq, Eq, Debug, Structural)]
pub enum CheckingError {
    TypeError(TypeRef, TypeCheckingError),
    SymbolError(SymbolRef, SymbolCheckingError),
    DefinitionError(DefinitionRef, DefinitionCheckingError),
    AxiomError(AxiomRef, AxiomCheckingError),
    TheoremError(TheoremRef, TheoremCheckingError),
    ProofError(ProofRef, ProofCheckingError),
}

/// Appends to `out` the image of each item under `f`, in order.
pub(crate) fn append_mapped<A: Copy, B, F: Fn(A) -> B>(
    out: &mut Vec<B>,
    items: &Vec<A>,
    f: F,
    Ghost(g): Ghost<spec_fn(A) -> B>,
)
    requires
        forall|a: A| #[trigger] f.requires((a,)),
        forall|a: A, b: B| f.ensures((a,), b) ==> b == g(a),
    ensures
        final(out)@ == old(out)@ + items@.map_values(g),
{
    let ghost start = out@;
    let mut i: usize = 0;
    while i < items.len()
        invariant
            i <= items@.len(),
            forall|a: A| #[trigger] f.requires((a,)),
            forall|a: A, b: B| f.ensures((a,), b) ==> b == g(a),
            out@ == start + items@.take(i as int).map_values(g),
        decreases items@.len() - i,
    {
        let b = f(items[i]);
        out.push(b);
        proof {
            assert(items@.take(i + 1) == items@.take(i as int).push(items@[i as int]));
        }
        i = i + 1;
    }
    proof {
        assert(items@.take(i as int) == items@);
    }
}

/// Appends to `out` the image of each item under `f`, with `tag` as the first argument.
pub(crate) fn append_tagged<T: Copy, A: Copy, B, F: Fn(T, A) -> B>(
    out: &mut Vec<B>,
    tag: T,
    items: &Vec<A>,
    f: F,
    Ghost(g): Ghost<spec_fn(T, A) -> B>,
)
    requires
        forall|t: T, a: A| #[trigger] f.requires((t, a)),
        forall|t: T, a: A, b: B| f.ensures((t, a), b) ==> b == g(t, a),
    ensures
        final(out)@ == old(out)@ + items@.map_values(|a: A| g(tag, a)),
{
    let ghost start = out@;
    let mut i: usize = 0;
    while i < items.len()
        invariant
            i <= items@.len(),
            forall|t: T, a: A| #[trigger] f.requires((t, a)),
            forall|t: T, a: A, b: B| f.ensures((t, a), b) ==> b == g(t, a),
            out@ == start + items@.take(i as int).map_values(|a: A| g(tag, a)),
        decreases items@.len() - i,
    {
        let b = f(tag, items[i]);
        out.push(b);
        proof {
            assert(items@.take(i + 1) == items@.take(i as int).push(items@[i as int]));
            assert(items@.take(i + 1).map_values(|a: A| g(tag, a)) =~= items@.take(i as int).map_values(|a: A| g(tag, a)).push(g(tag, items@[i as int])));
        }
        i = i + 1;
    }
    proof {
        assert(items@.take(i as int) == items@);
    }
}

/// The concatenation of `parts(0)`, ..., `parts(n - 1)`.
pub open spec fn flatten<E>(n: nat, parts: spec_fn(nat) -> Seq<E>) -> Seq<E>
    decreases n,
{
    if n == 0 {
        seq![]
    } else {
        flatten((n - 1) as nat, parts) + parts((n - 1) as nat)
    }
}

/// A concatenation is empty only when every part is.
pub proof fn lemma_flatten_empty<E>(n: nat, parts: spec_fn(nat) -> Seq<E>)
    requires
        flatten(n, parts).len() == 0,
    ensures
        forall|i: nat| i < n ==> (#[trigger] parts(i)).len() == 0,
    decreases n,
{
    if n > 0 {
        lemma_flatten_empty((n - 1) as nat, parts);
    }
}

/// The errors found while checking a directory, in the order in which they were found.
#[derive(Debug)]
pub struct CheckingErrorContext {
    pub errors: Vec<CheckingError>,
}

impl CheckingErrorContext {
    pub fn new() -> (r: CheckingErrorContext)
        ensures
            r.errors@ == Seq::<CheckingError>::empty(),
    {
        CheckingErrorContext { errors: Vec::new() }
    }

    /// Records one more error after those already found.
    pub fn err(&mut self, error: CheckingError)
        ensures
            final(self).errors@ == old(self).errors@.push(error),
    {
        self.errors.push(error);
    }

    pub fn error_found(&self) -> (r: bool)
        ensures
            r == (self.errors@.len() > 0),
    {
        self.errors.len() > 0
    }
}

} // verus!
