use vstd::prelude::*;

use crate::deduction::directory::{AxiomRef, CheckableDirectory, HypothesisRef, TheoremRef};
use crate::deduction::errors::{ProofCheckingError, ProofStepCheckingError};
use crate::deduction::language::Formula;
use crate::deduction::system::{
    lemma_proof_checkable, lemma_steps_errors_by_model, steps_check_errors, steps_proof_errors,
    Proof, ProofJustification, ProofStep,
};
use crate::rendered::TextRendered;
use crate::FileLocation;

use super::directory::{AxiomBlockRef, ProofBlockRef, ProofBlockStepRef, TheoremBlockRef};
use super::errors::{DocumentCheckingError, DocumentCheckingErrorContext};
use super::text::MathBlock;

verus! {

/// Whether a proved statement is presented as a lemma or as a theorem.
#[derive(Clone, Copy, PartialEq, Eq, Debug, Structural)]
pub enum TheoremKind {
    Lemma,
    Theorem,
}

impl TheoremKind {
    /// The word that heads the statement.
    pub fn render(&self) -> (r: &str)
        ensures
            r@ == (match *self {
                TheoremKind::Lemma => "Lemma"@,
                TheoremKind::Theorem => "Theorem"@,
            }),
    {
        match self {
            TheoremKind::Lemma => "Lemma",
            TheoremKind::Theorem => "Theorem",
        }
    }
}

/// An axiom or a theorem block that a step appeals to.
#[derive(Clone, Copy, PartialEq, Eq, Debug, Structural)]
pub enum DeductableBlockRef {
    Axiom(AxiomBlockRef),
    Theorem(TheoremBlockRef),
}

/// Why a step of a proof block holds, as it is shown.
#[derive(Clone, Copy, PartialEq, Eq, Debug, Structural)]
pub enum ProofBlockJustification {
    Deductable(DeductableBlockRef),
    Hypothesis(usize),
    Definition,
    Substitution,
}

impl ProofBlockJustification {
    /// The axiom or theorem the step appeals to, if any.
    pub fn deductable(&self) -> (r: Option<&DeductableBlockRef>)
        ensures
            r == (match *self {
                ProofBlockJustification::Deductable(d) => Some(&d),
                _ => None,
            }),
    {
        match self {
            ProofBlockJustification::Deductable(d) => Some(d),
            _ => None,
        }
    }
}

/// Why one of the small steps that a step unfolds into holds. Premises are counted from one.
#[derive(Clone, Copy, PartialEq, Eq, Debug, Structural)]
pub enum ProofBlockSmallJustification {
    Deductable(DeductableBlockRef),
    Hypothesis(usize),
    Definition,
}

/// The justification that is checked for a small step: blocks and the items of deduction are
/// numbered alike, and deduction counts premises from zero.
pub open spec fn small_justification_checkable(j: ProofBlockSmallJustification) -> ProofJustification {
    match j {
        ProofBlockSmallJustification::Deductable(DeductableBlockRef::Axiom(a)) => ProofJustification::Axiom(
            AxiomRef(a.0),
        ),
        ProofBlockSmallJustification::Deductable(DeductableBlockRef::Theorem(t)) => ProofJustification::Theorem(
            TheoremRef(t.0),
        ),
        ProofBlockSmallJustification::Hypothesis(i) => ProofJustification::Hypothesis(HypothesisRef((i - 1) as usize)),
        ProofBlockSmallJustification::Definition => ProofJustification::Definition,
    }
}

impl ProofBlockSmallJustification {
    fn checkable(&self) -> (r: ProofJustification)
        requires
            *self matches ProofBlockSmallJustification::Hypothesis(i) ==> i > 0,
        ensures
            r == small_justification_checkable(*self),
    {
        match self {
            ProofBlockSmallJustification::Deductable(DeductableBlockRef::Axiom(a)) => ProofJustification::Axiom(
                AxiomRef(a.0),
            ),
            ProofBlockSmallJustification::Deductable(DeductableBlockRef::Theorem(t)) => ProofJustification::Theorem(
                TheoremRef(t.0),
            ),
            ProofBlockSmallJustification::Hypothesis(i) => ProofJustification::Hypothesis(HypothesisRef(*i - 1)),
            ProofBlockSmallJustification::Definition => ProofJustification::Definition,
        }
    }
}

/// One of the small steps that a step of a proof unfolds into: a formula and why it holds.
pub struct ProofBlockSmallStep {
    pub justification: ProofBlockSmallJustification,
    pub formula: Formula,
}

/// The step of deduction that a small step stands for.
pub open spec fn small_step_checkable(s: ProofBlockSmallStep) -> ProofStep {
    ProofStep { justification: small_justification_checkable(s.justification), formula: s.formula }
}

/// A small step that appeals to a premise counts it from one.
pub open spec fn hypothesis_counted(s: ProofBlockSmallStep) -> bool {
    s.justification matches ProofBlockSmallJustification::Hypothesis(i) ==> i > 0
}

/// Two lists of steps of deduction say the same: the same justifications and the same formulas.
pub open spec fn steps_agree(a: Seq<ProofStep>, b: Seq<ProofStep>) -> bool {
    &&& a.len() == b.len()
    &&& forall|i: int|
        0 <= i < a.len() ==> (#[trigger] a[i]).justification == b[i].justification && a[i].formula.model()
            == b[i].formula.model()
}

impl ProofBlockSmallStep {
    pub fn new(justification: ProofBlockSmallJustification, formula: Formula) -> (r: ProofBlockSmallStep)
        ensures
            r.justification == justification,
            r.formula == formula,
    {
        ProofBlockSmallStep { justification, formula }
    }

    /// The step of deduction that the small step stands for (see `small_step_checkable`).
    pub fn checkable(&self) -> (r: ProofStep)
        requires
            hypothesis_counted(*self),
        ensures
            r.justification == small_step_checkable(*self).justification,
            r.formula.model() == self.formula.model(),
    {
        ProofStep::new(self.justification.checkable(), self.formula.duplicate())
    }
}

/// A step of a proof block: where it was written, why it holds, the small steps it unfolds into,
/// its displayed formula and the punctuation after it, and the id, address and number it is
/// shown with.
pub struct ProofBlockStep {
    pub file_location: FileLocation,
    pub justification: ProofBlockJustification,
    pub small_steps: Vec<ProofBlockSmallStep>,
    pub formula: MathBlock,
    pub end: String,
    pub id: String,
    pub href: String,
    pub tag: usize,
}

impl ProofBlockStep {
    pub fn new(
        file_location: FileLocation,
        justification: ProofBlockJustification,
        small_steps: Vec<ProofBlockSmallStep>,
        formula: MathBlock,
        end: String,
        id: String,
        href: String,
        tag: usize,
    ) -> (r: ProofBlockStep)
        ensures
            r.file_location == file_location,
            r.justification == justification,
            r.small_steps == small_steps,
            r.formula == formula,
            r.end == end,
            r.id == id,
            r.href == href,
            r.tag == tag,
    {
        ProofBlockStep { file_location, justification, small_steps, formula, end, id, href, tag }
    }

    pub fn file_location(&self) -> (r: &FileLocation)
        ensures
            *r == self.file_location,
    {
        &self.file_location
    }

    pub fn justification(&self) -> (r: &ProofBlockJustification)
        ensures
            *r == self.justification,
    {
        &self.justification
    }

    fn num_small_steps(&self) -> (r: usize)
        ensures
            r == self.small_steps@.len(),
    {
        self.small_steps.len()
    }
}

/// A piece of a proof block: shown text, or a step.
pub enum ProofBlockElement {
    Text(TextRendered),
    Step(ProofBlockStep),
}

impl ProofBlockElement {
    /// The step, if this piece is one.
    pub fn step(&self) -> (r: Option<&ProofBlockStep>)
        ensures
            r == (match *self {
                ProofBlockElement::Step(s) => Some(&s),
                _ => None,
            }),
    {
        match self {
            ProofBlockElement::Step(s) => Some(s),
            _ => None,
        }
    }
}

/// The small steps of the steps among `elements`, in order.
pub open spec fn block_small_steps(elements: Seq<ProofBlockElement>) -> Seq<ProofBlockSmallStep>
    decreases elements.len(),
{
    if elements.len() == 0 {
        seq![]
    } else {
        block_small_steps(elements.drop_last()) + match elements.last() {
            ProofBlockElement::Text(_) => seq![],
            ProofBlockElement::Step(s) => s.small_steps@,
        }
    }
}

/// The steps of deduction of a proof block: the small steps of every step, in order.
pub open spec fn block_steps(elements: Seq<ProofBlockElement>) -> Seq<ProofStep> {
    block_small_steps(elements).map_values(|s: ProofBlockSmallStep| small_step_checkable(s))
}

/// Every small step of a piece that appeals to a premise counts it from one.
pub open spec fn element_counted(element: ProofBlockElement) -> bool {
    match element {
        ProofBlockElement::Text(_) => true,
        ProofBlockElement::Step(s) => forall|j: int|
            0 <= j < s.small_steps@.len() ==> hypothesis_counted(#[trigger] s.small_steps@[j]),
    }
}

/// Every small step of the block that appeals to a premise counts it from one.
pub open spec fn block_counted(elements: Seq<ProofBlockElement>) -> bool {
    forall|k: int| 0 <= k < elements.len() ==> element_counted(#[trigger] elements[k])
}

/// The position, among the small steps of a proof block, of the first small step of its `k`th
/// element.
pub open spec fn step_start(elements: Seq<ProofBlockElement>, k: int) -> int {
    block_small_steps(elements.take(k)).len() as int
}

/// Whether the `k`th element is a step that holds the small step `i`, or that begins where `i`
/// stands.
pub open spec fn step_covers(elements: Seq<ProofBlockElement>, k: int, i: int) -> bool {
    0 <= k < elements.len() && (elements[k] matches ProofBlockElement::Step(s) && step_start(elements, k) <= i && (i
        == step_start(elements, k) || i < step_start(elements, k) + s.small_steps@.len()))
}

/// The `k`th element is the first step that covers the small step `i` (see `step_covers`).
pub open spec fn first_cover(elements: Seq<ProofBlockElement>, k: int, i: int) -> bool {
    step_covers(elements, k, i) && forall|j: int| 0 <= j < k ==> !#[trigger] step_covers(elements, j, i)
}

/// The element of the step that begins at the small step `i`, when the first step that covers
/// it begins there.
pub open spec fn located_step(elements: Seq<ProofBlockElement>, i: int) -> int {
    choose|k: int| first_cover(elements, k, i) && step_start(elements, k) == i
}

/// Whether checking a document has a message for an error of deduction: a proof whose last
/// step is not the assertion, or a step, at the beginning of a written step, that does not match
/// the assertion of the axiom or theorem that justifies it.
pub open spec fn reportable(e: ProofCheckingError, elements: Seq<ProofBlockElement>) -> bool {
    match e {
        ProofCheckingError::AssertionMismatch => true,
        ProofCheckingError::StepError(s, kind) => (kind == ProofStepCheckingError::AxiomAssertionNotSubstitutable
            || kind == ProofStepCheckingError::TheoremAssertionNotSubstitutable) && exists|k: int|
            first_cover(elements, k, s.0 as int) && step_start(elements, k) == s.0,
        _ => false,
    }
}

/// The message for an error of deduction in the proof block `proof_ref` (the errors that are
/// not `reportable` are not given one).
pub open spec fn document_error(
    proof_ref: ProofBlockRef,
    e: ProofCheckingError,
    elements: Seq<ProofBlockElement>,
) -> DocumentCheckingError {
    match e {
        ProofCheckingError::StepError(s, _) => DocumentCheckingError::DeductableAssertionNotSubstitutable(
            proof_ref,
            ProofBlockStepRef(proof_ref, located_step(elements, s.0 as int) as usize),
        ),
        _ => DocumentCheckingError::AssertionMismatch(proof_ref),
    }
}

/// The small steps of the first `k + 1` elements are those of the first `k`, then those of the
/// `k`th element.
proof fn lemma_block_small_steps_next(elements: Seq<ProofBlockElement>, k: int)
    requires
        0 <= k < elements.len(),
    ensures
        block_small_steps(elements.take(k + 1)) == block_small_steps(elements.take(k)) + match elements[k] {
            ProofBlockElement::Text(_) => seq![],
            ProofBlockElement::Step(s) => s.small_steps@,
        },
{
    assert(elements.take(k + 1).drop_last() =~= elements.take(k));
    assert(elements.take(k + 1).last() == elements[k]);
}

/// At most one element is the first step that covers a small step.
proof fn lemma_first_cover_unique(elements: Seq<ProofBlockElement>, a: int, b: int, i: int)
    requires
        first_cover(elements, a, i),
        first_cover(elements, b, i),
    ensures
        a == b,
{
    if a < b {
        assert(!step_covers(elements, a, i));
    } else if b < a {
        assert(!step_covers(elements, b, i));
    }
}

/// Where some step covers a small step, a first one does.
proof fn lemma_first_cover_exists(elements: Seq<ProofBlockElement>, k: int, i: int)
    requires
        step_covers(elements, k, i),
    ensures
        exists|m: int| first_cover(elements, m, i),
    decreases k,
{
    if exists|j: int| 0 <= j < k && step_covers(elements, j, i) {
        let j = choose|j: int| 0 <= j < k && step_covers(elements, j, i);
        lemma_first_cover_exists(elements, j, i);
    } else {
        assert(first_cover(elements, k, i));
    }
}

/// The small steps of a prefix of the elements, and where its steps begin, are those of the
/// whole.
proof fn lemma_prefix_starts(elements: Seq<ProofBlockElement>, n: int, k: int)
    requires
        0 <= k <= n <= elements.len(),
    ensures
        step_start(elements.take(n), k) == step_start(elements, k),
{
    assert(elements.take(n).take(k) =~= elements.take(k));
}

/// Every small step of a proof block stands in a written step: some step covers it, so that
/// looking it up (`ProofBlock::get_step`) finds a step.
pub proof fn law_small_step_has_a_step(elements: Seq<ProofBlockElement>, i: int)
    requires
        0 <= i < block_small_steps(elements).len(),
    ensures
        exists|k: int| first_cover(elements, k, i),
    decreases elements.len(),
{
    let n = elements.len() - 1;
    let front = elements.drop_last();
    assert(elements.take(n) =~= front);
    assert(elements.take(n + 1) =~= elements);
    lemma_block_small_steps_next(elements, n);
    if i < block_small_steps(front).len() {
        law_small_step_has_a_step(front, i);
        let k = choose|k: int| first_cover(front, k, i);
        lemma_prefix_starts(elements, n, k);
        assert(front[k] == elements[k]);
        assert(step_covers(elements, k, i));
        lemma_first_cover_exists(elements, k, i);
    } else {
        assert(step_start(elements, n) == block_small_steps(front).len());
        assert(step_covers(elements, n, i));
        lemma_first_cover_exists(elements, n, i);
    }
}

/// A proof block: the theorem it proves and its pieces.
pub struct ProofBlock {
    pub theorem_ref: TheoremBlockRef,
    pub elements: Vec<ProofBlockElement>,
}

impl ProofBlock {
    pub fn new(theorem_ref: TheoremBlockRef, elements: Vec<ProofBlockElement>) -> (r: ProofBlock)
        ensures
            r.theorem_ref == theorem_ref,
            r.elements == elements,
    {
        ProofBlock { theorem_ref, elements }
    }

    /// The proof of deduction: the small steps of every step, in order (see `block_steps`).
    pub fn checkable(&self) -> (r: Proof)
        requires
            block_counted(self.elements@),
        ensures
            r.theorem_ref == TheoremRef(self.theorem_ref.0),
            steps_agree(r.steps@, block_steps(self.elements@)),
    {
        let mut steps: Vec<ProofStep> = Vec::new();
        let mut k: usize = 0;
        while k < self.elements.len()
            invariant
                k <= self.elements@.len(),
                block_counted(self.elements@),
                steps_agree(steps@, block_steps(self.elements@.take(k as int))),
            decreases self.elements@.len() - k,
        {
            proof {
                lemma_block_small_steps_next(self.elements@, k as int);
            }
            match &self.elements[k] {
                ProofBlockElement::Text(_) => {
                    proof {
                        assert(block_steps(self.elements@.take(k + 1)) =~= block_steps(self.elements@.take(k as int)));
                    }
                },
                ProofBlockElement::Step(step) => {
                    let ghost base = block_small_steps(self.elements@.take(k as int));
                    let mut j: usize = 0;
                    while j < step.small_steps.len()
                        invariant
                            j <= step.small_steps@.len(),
                            0 <= k < self.elements@.len(),
                            self.elements@[k as int] == ProofBlockElement::Step(*step),
                            block_counted(self.elements@),
                            steps_agree(
                                steps@,
                                (base + step.small_steps@.take(j as int)).map_values(
                                    |s: ProofBlockSmallStep| small_step_checkable(s),
                                ),
                            ),
                        decreases step.small_steps@.len() - j,
                    {
                        assert(element_counted(self.elements@[k as int]));
                        assert(hypothesis_counted(step.small_steps@[j as int]));
                        let s = step.small_steps[j].checkable();
                        steps.push(s);
                        proof {
                            assert(base + step.small_steps@.take(j + 1) =~= (base + step.small_steps@.take(
                                j as int,
                            )).push(step.small_steps@[j as int]));
                        }
                        j = j + 1;
                    }
                    proof {
                        assert(step.small_steps@.take(j as int) =~= step.small_steps@);
                    }
                },
            }
            k = k + 1;
        }
        proof {
            assert(self.elements@.take(k as int) =~= self.elements@);
        }
        Proof::new(TheoremRef(self.theorem_ref.0), steps)
    }

    /// The errors of the references of the proof (see `steps_proof_errors`): what it proves and
    /// what its steps appeal to must exist.
    pub fn verify(&self, directory: &CheckableDirectory) -> (r: Vec<ProofCheckingError>)
        requires
            block_counted(self.elements@),
        ensures
            r@ == steps_proof_errors(TheoremRef(self.theorem_ref.0), block_steps(self.elements@), *directory),
    {
        let proof = self.checkable();
        proof {
            lemma_steps_errors_by_model(proof.theorem_ref, proof.steps@, block_steps(self.elements@), *directory);
        }
        proof.verify(directory)
    }

    /// The step in which the small step `i` of the proof stands: `Ok` with its position when the
    /// step begins with it, `Err` with its position when the step holds it further on, `Err(None)`
    /// when no step holds it.
    pub fn get_step(&self, i: usize) -> (r: Result<usize, Option<usize>>)
        ensures
            match r {
                Ok(k) => first_cover(self.elements@, k as int, i as int) && step_start(self.elements@, k as int)
                    == i,
                Err(Some(k)) => first_cover(self.elements@, k as int, i as int) && step_start(
                    self.elements@,
                    k as int,
                ) != i,
                Err(None) => forall|k: int| 0 <= k < self.elements@.len() ==> !step_covers(self.elements@, k, i as int),
            },
    {
        let mut counter: usize = 0;
        let mut k: usize = 0;
        while k < self.elements.len()
            invariant
                k <= self.elements@.len(),
                counter as int == step_start(self.elements@, k as int),
                counter <= i,
                forall|j: int| 0 <= j < k ==> !#[trigger] step_covers(self.elements@, j, i as int),
            decreases self.elements@.len() - k,
        {
            proof {
                lemma_block_small_steps_next(self.elements@, k as int);
            }
            match &self.elements[k] {
                ProofBlockElement::Text(_) => {},
                ProofBlockElement::Step(step) => {
                    let n = step.num_small_steps();
                    if counter == i {
                        return Ok(k);
                    } else if n > i - counter {
                        return Err(Some(k));
                    } else {
                        counter = counter + n;
                    }
                },
            }
            k = k + 1;
        }
        Err(None)
    }

    /// Checks the proof, whose references resolve, and records in `errors` what was found, in the
    /// order deduction found it (see `steps_check_errors` and `document_error`).
    pub fn check(
        &self,
        proof_ref: ProofBlockRef,
        directory: &CheckableDirectory,
        errors: &mut DocumentCheckingErrorContext,
    )
        requires
            block_counted(self.elements@),
            steps_proof_errors(TheoremRef(self.theorem_ref.0), block_steps(self.elements@), *directory).len()
                == 0,
            forall|e: ProofCheckingError|
                steps_check_errors(TheoremRef(self.theorem_ref.0), block_steps(self.elements@), *directory).contains(e)
                    ==> #[trigger] reportable(e, self.elements@),
        ensures
            final(errors).errors@ == old(errors).errors@ + steps_check_errors(
                TheoremRef(self.theorem_ref.0),
                block_steps(self.elements@),
                *directory,
            ).map_values(|e: ProofCheckingError| document_error(proof_ref, e, self.elements@)),
    {
        let proof = self.checkable();
        proof {
            lemma_steps_errors_by_model(proof.theorem_ref, proof.steps@, block_steps(self.elements@), *directory);
            lemma_proof_checkable(proof, *directory);
        }
        let found = proof.check(directory);
        let ghost start = errors.errors@;
        let mut m: usize = 0;
        while m < found.len()
            invariant
                m <= found@.len(),
                forall|e: ProofCheckingError| found@.contains(e) ==> #[trigger] reportable(e, self.elements@),
                errors.errors@ == start + found@.take(m as int).map_values(
                    |e: ProofCheckingError| document_error(proof_ref, e, self.elements@),
                ),
            decreases found@.len() - m,
        {
            let e = found[m];
            assert(found@.contains(e));
            assert(reportable(e, self.elements@));
            match e {
                ProofCheckingError::StepError(s, _) => {
                    let ghost w = choose|k: int| first_cover(self.elements@, k, s.0 as int) && step_start(
                        self.elements@,
                        k,
                    ) == s.0;
                    match self.get_step(s.0) {
                        Ok(k) => {
                            proof {
                                lemma_first_cover_unique(self.elements@, k as int, w, s.0 as int);
                            }
                            errors.err(
                                DocumentCheckingError::DeductableAssertionNotSubstitutable(
                                    proof_ref,
                                    ProofBlockStepRef(proof_ref, k),
                                ),
                            );
                        },
                        Err(Some(k)) => {
                            proof {
                                lemma_first_cover_unique(self.elements@, k as int, w, s.0 as int);
                            }
                        },
                        Err(None) => {
                            assert(!step_covers(self.elements@, w, s.0 as int));
                        },
                    }
                },
                _ => {
                    errors.err(DocumentCheckingError::AssertionMismatch(proof_ref));
                },
            }
            proof {
                assert(found@.take(m + 1) =~= found@.take(m as int).push(e));
            }
            m = m + 1;
        }
        proof {
            assert(found@.take(m as int) =~= found@);
        }
    }
}

} // verus!
