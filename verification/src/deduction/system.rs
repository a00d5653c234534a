use vstd::prelude::*;

use super::directory::{
    local_errors, AxiomRef, VariableRef, CheckableDirectory, HypothesisRef, LocalCheckableDirectory,
    ProofStepRef, SystemRef, TheoremRef,
};
use super::errors::{
    append_mapped, append_tagged, flatten, AxiomCheckingError, FormulaCheckingError,
    LocalCheckingError, ProofCheckingError, ProofStepCheckingError, TheoremCheckingError,
};
use super::language::{
    compatible, formula_errors, lemma_models_index, lemma_models_index_len, models, Formula,
    FormulaModel,
};
use super::substitution::{find_maps, match_formula, merge_lists, Substitution, SubstitutionList};

verus! {

pub struct System {
    pub id: String,
}

impl System {
    pub fn new(id: String) -> (r: System)
        ensures
            r.id == id,
    {
        System { id }
    }
}

/// The errors of the `i`th hypothesis of an statement.
pub open spec fn axiom_premise_part(
    premise: Seq<Formula>,
    local_directory: LocalCheckableDirectory,
    directory: CheckableDirectory,
) -> spec_fn(nat) -> Seq<AxiomCheckingError> {
    |i: nat|
        formula_errors(premise[i as int].model(), local_directory, directory).map_values(
            |e: FormulaCheckingError| AxiomCheckingError::PremiseError(HypothesisRef(i as usize), e),
        )
}

/// The errors of an axiom: a missing system, then those of its variables, of each hypothesis and
/// of its assertion.
pub open spec fn axiom_errors(statement: Axiom, directory: CheckableDirectory) -> Seq<
    AxiomCheckingError,
> {
    (if directory.has_system(statement.system_ref) {
        seq![]
    } else {
        seq![AxiomCheckingError::InvalidSystemRef]
    }) + local_errors(
        statement.local_directory.vars@,
        directory,
        statement.local_directory.vars@.len(),
    ).map_values(|e: LocalCheckingError| AxiomCheckingError::LocalError(e)) + flatten(
        statement.premise@.len(),
        axiom_premise_part(statement.premise@, statement.local_directory, directory),
    ) + formula_errors(statement.assertion.model(), statement.local_directory, directory).map_values(
        |e: FormulaCheckingError| AxiomCheckingError::AssertionError(e),
    )
}

fn axiom_local_error(e: LocalCheckingError) -> (r: AxiomCheckingError)
    ensures
        r == AxiomCheckingError::LocalError(e),
{
    AxiomCheckingError::LocalError(e)
}

fn axiom_premise_error(h: HypothesisRef, e: FormulaCheckingError) -> (r: AxiomCheckingError)
    ensures
        r == AxiomCheckingError::PremiseError(h, e),
{
    AxiomCheckingError::PremiseError(h, e)
}

fn axiom_assertion_error(e: FormulaCheckingError) -> (r: AxiomCheckingError)
    ensures
        r == AxiomCheckingError::AssertionError(e),
{
    AxiomCheckingError::AssertionError(e)
}

pub struct Axiom {
    pub id: String,
    pub system_ref: SystemRef,
    pub local_directory: LocalCheckableDirectory,
    pub premise: Vec<Formula>,
    pub assertion: Formula,
}

impl Axiom {
    pub fn new(
        id: String,
        system_ref: SystemRef,
        local_directory: LocalCheckableDirectory,
        premise: Vec<Formula>,
        assertion: Formula,
    ) -> (r: Axiom)
        ensures
            r.id == id,
            r.system_ref == system_ref,
            r.local_directory == local_directory,
            r.premise == premise,
            r.assertion == assertion,
    {
        Axiom { id, system_ref, local_directory, premise, assertion }
    }

    /// The errors of the axiom (see `axiom_errors`).
    pub fn verify(&self, directory: &CheckableDirectory) -> (r: Vec<AxiomCheckingError>)
        ensures
            r@ == axiom_errors(*self, *directory),
    {
        let mut errors = Vec::new();
        if !directory.contains_system(self.system_ref) {
            errors.push(AxiomCheckingError::InvalidSystemRef);
        }
        let local = self.local_directory.verify(directory);
        append_mapped(
            &mut errors,
            &local,
            axiom_local_error,
            Ghost(|e: LocalCheckingError| AxiomCheckingError::LocalError(e)),
        );
        let ghost head = errors@;
        let ghost part = axiom_premise_part(self.premise@, self.local_directory, *directory);
        let mut i: usize = 0;
        while i < self.premise.len()
            invariant
                i <= self.premise@.len(),
                part == axiom_premise_part(self.premise@, self.local_directory, *directory),
                errors@ == head + flatten(i as nat, part),
            decreases self.premise@.len() - i,
        {
            let inner = self.premise[i].verify(&self.local_directory, directory);
            append_tagged(
                &mut errors,
                HypothesisRef(i),
                &inner,
                axiom_premise_error,
                Ghost(|h: HypothesisRef, e: FormulaCheckingError| AxiomCheckingError::PremiseError(h, e)),
            );
            proof {
                assert(inner@.map_values(
                    |a: FormulaCheckingError| AxiomCheckingError::PremiseError(HypothesisRef(i), a),
                ) =~= part(i as nat));
            }
            i = i + 1;
        }
        let assertion = self.assertion.verify(&self.local_directory, directory);
        append_mapped(
            &mut errors,
            &assertion,
            axiom_assertion_error,
            Ghost(|e: FormulaCheckingError| AxiomCheckingError::AssertionError(e)),
        );
        errors
    }

    pub fn assertion(&self) -> (r: &Formula)
        ensures
            *r == self.assertion,
    {
        &self.assertion
    }

    pub fn premise(&self) -> (r: &Vec<Formula>)
        ensures
            *r == self.premise,
    {
        &self.premise
    }
}

/// The errors of the `i`th hypothesis of a theorem.
pub open spec fn theorem_premise_part(
    premise: Seq<Formula>,
    local_directory: LocalCheckableDirectory,
    directory: CheckableDirectory,
) -> spec_fn(nat) -> Seq<TheoremCheckingError> {
    |i: nat|
        formula_errors(premise[i as int].model(), local_directory, directory).map_values(
            |e: FormulaCheckingError| TheoremCheckingError::PremiseError(HypothesisRef(i as usize), e),
        )
}

/// The errors of a theorem: a missing system, then those of its variables, of each hypothesis and
/// of its assertion.
pub open spec fn theorem_errors(theorem: Theorem, directory: CheckableDirectory) -> Seq<
    TheoremCheckingError,
> {
    (if directory.has_system(theorem.system_ref) {
        seq![]
    } else {
        seq![TheoremCheckingError::InvalidSystemRef]
    }) + local_errors(
        theorem.local_directory.vars@,
        directory,
        theorem.local_directory.vars@.len(),
    ).map_values(|e: LocalCheckingError| TheoremCheckingError::LocalError(e)) + flatten(
        theorem.premise@.len(),
        theorem_premise_part(theorem.premise@, theorem.local_directory, directory),
    ) + formula_errors(theorem.assertion.model(), theorem.local_directory, directory).map_values(
        |e: FormulaCheckingError| TheoremCheckingError::AssertionError(e),
    )
}

fn theorem_local_error(e: LocalCheckingError) -> (r: TheoremCheckingError)
    ensures
        r == TheoremCheckingError::LocalError(e),
{
    TheoremCheckingError::LocalError(e)
}

fn theorem_premise_error(h: HypothesisRef, e: FormulaCheckingError) -> (r: TheoremCheckingError)
    ensures
        r == TheoremCheckingError::PremiseError(h, e),
{
    TheoremCheckingError::PremiseError(h, e)
}

fn theorem_assertion_error(e: FormulaCheckingError) -> (r: TheoremCheckingError)
    ensures
        r == TheoremCheckingError::AssertionError(e),
{
    TheoremCheckingError::AssertionError(e)
}

pub struct Theorem {
    pub id: String,
    pub system_ref: SystemRef,
    pub local_directory: LocalCheckableDirectory,
    pub premise: Vec<Formula>,
    pub assertion: Formula,
}

impl Theorem {
    pub fn new(
        id: String,
        system_ref: SystemRef,
        local_directory: LocalCheckableDirectory,
        premise: Vec<Formula>,
        assertion: Formula,
    ) -> (r: Theorem)
        ensures
            r.id == id,
            r.system_ref == system_ref,
            r.local_directory == local_directory,
            r.premise == premise,
            r.assertion == assertion,
    {
        Theorem { id, system_ref, local_directory, premise, assertion }
    }

    /// The errors of the theorem (see `theorem_errors`).
    pub fn verify(&self, directory: &CheckableDirectory) -> (r: Vec<TheoremCheckingError>)
        ensures
            r@ == theorem_errors(*self, *directory),
    {
        let mut errors = Vec::new();
        if !directory.contains_system(self.system_ref) {
            errors.push(TheoremCheckingError::InvalidSystemRef);
        }
        let local = self.local_directory.verify(directory);
        append_mapped(
            &mut errors,
            &local,
            theorem_local_error,
            Ghost(|e: LocalCheckingError| TheoremCheckingError::LocalError(e)),
        );
        let ghost head = errors@;
        let ghost part = theorem_premise_part(self.premise@, self.local_directory, *directory);
        let mut i: usize = 0;
        while i < self.premise.len()
            invariant
                i <= self.premise@.len(),
                part == theorem_premise_part(self.premise@, self.local_directory, *directory),
                errors@ == head + flatten(i as nat, part),
            decreases self.premise@.len() - i,
        {
            let inner = self.premise[i].verify(&self.local_directory, directory);
            append_tagged(
                &mut errors,
                HypothesisRef(i),
                &inner,
                theorem_premise_error,
                Ghost(|h: HypothesisRef, e: FormulaCheckingError| TheoremCheckingError::PremiseError(h, e)),
            );
            proof {
                assert(inner@.map_values(
                    |a: FormulaCheckingError| TheoremCheckingError::PremiseError(HypothesisRef(i), a),
                ) =~= part(i as nat));
            }
            i = i + 1;
        }
        let assertion = self.assertion.verify(&self.local_directory, directory);
        append_mapped(
            &mut errors,
            &assertion,
            theorem_assertion_error,
            Ghost(|e: FormulaCheckingError| TheoremCheckingError::AssertionError(e)),
        );
        errors
    }

    pub fn assertion(&self) -> (r: &Formula)
        ensures
            *r == self.assertion,
    {
        &self.assertion
    }

    pub fn premise(&self) -> (r: &Vec<Formula>)
        ensures
            *r == self.premise,
    {
        &self.premise
    }
}

/// A reference to something from which a step can be deduced.
#[derive(Clone, Copy, PartialEq, Eq, Debug, Structural)]
pub enum DeductableRef {
    Axiom(AxiomRef),
    Theorem(TheoremRef),
}

impl DeductableRef {
    pub open spec fn valid(self, directory: CheckableDirectory) -> bool {
        match self {
            DeductableRef::Axiom(a) => directory.has_axiom(a),
            DeductableRef::Theorem(t) => directory.has_theorem(t),
        }
    }

    pub open spec fn spec_premise(self, directory: CheckableDirectory) -> Seq<Formula> {
        match self {
            DeductableRef::Axiom(a) => directory.axioms@[a.0 as int].premise@,
            DeductableRef::Theorem(t) => directory.theorems@[t.0 as int].premise@,
        }
    }

    pub open spec fn spec_assertion(self, directory: CheckableDirectory) -> Formula {
        match self {
            DeductableRef::Axiom(a) => directory.axioms@[a.0 as int].assertion,
            DeductableRef::Theorem(t) => directory.theorems@[t.0 as int].assertion,
        }
    }

    pub fn premise<'a>(&self, directory: &'a CheckableDirectory) -> (r: &'a Vec<Formula>)
        requires
            self.valid(*directory),
        ensures
            r@ == self.spec_premise(*directory),
    {
        match self {
            DeductableRef::Axiom(a) => &directory.axioms[a.0].premise,
            DeductableRef::Theorem(t) => &directory.theorems[t.0].premise,
        }
    }

    pub fn assertion<'a>(&self, directory: &'a CheckableDirectory) -> (r: &'a Formula)
        requires
            self.valid(*directory),
        ensures
            *r == self.spec_assertion(*directory),
    {
        match self {
            DeductableRef::Axiom(a) => &directory.axioms[a.0].assertion,
            DeductableRef::Theorem(t) => &directory.theorems[t.0].assertion,
        }
    }
}

/// How a formula fares against an axiom or theorem.
#[derive(Clone, Copy, PartialEq, Eq, Debug, Structural)]
pub enum Deduction {
    /// Some substitution turns the assertion into the formula and every hypothesis into an
    /// earlier step, consistently.
    Justified,
    /// The assertion cannot be turned into the formula.
    AssertionNotSubstitutable,
    /// The assertion can, but not together with every hypothesis.
    NotSubstitutable,
}

/// The substitutions that survive merging `start` with the matches of the first `n` hypotheses
/// against the earlier steps, hypothesis by hypothesis.
pub open spec fn premise_merges(
    start: Seq<Map<VariableRef, FormulaModel>>,
    premise: Seq<FormulaModel>,
    previous: Seq<FormulaModel>,
    directory: CheckableDirectory,
    n: nat,
) -> Seq<Map<VariableRef, FormulaModel>>
    decreases n,
{
    if n == 0 {
        start
    } else {
        merge_lists(
            premise_merges(start, premise, previous, directory, (n - 1) as nat),
            find_maps(premise[n - 1], previous, directory),
            directory,
        )
    }
}

/// Whether `formula` follows from the statement with the given hypotheses and assertion, given
/// the earlier steps `previous`.
pub open spec fn deduction(
    premise: Seq<FormulaModel>,
    assertion: FormulaModel,
    formula: FormulaModel,
    previous: Seq<FormulaModel>,
    directory: CheckableDirectory,
) -> Deduction {
    match match_formula(assertion, formula, Map::empty(), directory) {
        None => Deduction::AssertionNotSubstitutable,
        Some(m) => if premise_merges(seq![m], premise, previous, directory, premise.len()).len()
            == 0 {
            Deduction::NotSubstitutable
        } else {
            Deduction::Justified
        },
    }
}

/// The values of a list of formula references.
pub open spec fn ref_models(formulas: Seq<&Formula>) -> Seq<FormulaModel> {
    Seq::new(formulas.len(), |i: int| formulas[i].model())
}

/// Decides whether `formula` follows from the statement with the given hypotheses and assertion,
/// given the earlier steps (see `deduction`).
pub fn check_deduction(
    premise: &Vec<Formula>,
    assertion: &Formula,
    formula: &Formula,
    previous: &Vec<&Formula>,
    directory: &CheckableDirectory,
) -> (r: Deduction)
    ensures
        r == deduction(models(premise@), assertion.model(), formula.model(), ref_models(previous@), *directory),
{
    match Substitution::new(assertion, formula, directory) {
        None => Deduction::AssertionNotSubstitutable,
        Some(assertion_substitution) => {
            let ghost m = assertion_substitution.model();
            let mut merged = SubstitutionList::new(assertion_substitution);
            let mut i: usize = 0;
            proof {
                lemma_models_index_len(premise@);
            }
            while i < premise.len()
                invariant
                    i <= premise@.len(),
                    models(premise@).len() == premise@.len(),
                    merged.wf(),
                    merged.model() == premise_merges(seq![m], models(premise@), ref_models(previous@), *directory, i as nat),
                decreases premise@.len() - i,
            {
                let found = SubstitutionList::find(&premise[i], previous, directory);
                proof {
                    lemma_models_index(premise@, i as int);
                }
                merged = merged.merge(found, directory);
                i = i + 1;
            }
            if merged.impossible() {
                Deduction::NotSubstitutable
            } else {
                Deduction::Justified
            }
        },
    }
}

impl Formula {
    /// Whether the formula follows from the referenced axiom or theorem, given the earlier steps;
    /// the error names the kind of statement.
    pub fn check_deductable(
        &self,
        deductable_ref: &DeductableRef,
        previous: &Vec<&Formula>,
        directory: &CheckableDirectory,
    ) -> (r: Option<ProofStepCheckingError>)
        requires
            deductable_ref.valid(*directory),
        ensures
            r == deductable_error(*deductable_ref, self.model(), ref_models(previous@), *directory),
    {
        let premise = deductable_ref.premise(directory);
        let assertion = deductable_ref.assertion(directory);
        let outcome = check_deduction(premise, assertion, self, previous, directory);
        match (outcome, deductable_ref) {
            (Deduction::Justified, _) => None,
            (Deduction::AssertionNotSubstitutable, DeductableRef::Axiom(_)) => Some(
                ProofStepCheckingError::AxiomAssertionNotSubstitutable,
            ),
            (Deduction::NotSubstitutable, DeductableRef::Axiom(_)) => Some(
                ProofStepCheckingError::AxiomNotSubstitutable,
            ),
            (Deduction::AssertionNotSubstitutable, DeductableRef::Theorem(_)) => Some(
                ProofStepCheckingError::TheoremAssertionNotSubstitutable,
            ),
            (Deduction::NotSubstitutable, DeductableRef::Theorem(_)) => Some(
                ProofStepCheckingError::TheoremNotSubstitutable,
            ),
        }
    }
}

/// The error, if any, of deducing `formula` from the referenced statement.
pub open spec fn deductable_error(
    deductable_ref: DeductableRef,
    formula: FormulaModel,
    previous: Seq<FormulaModel>,
    directory: CheckableDirectory,
) -> Option<ProofStepCheckingError> {
    let outcome = deduction(
        models(deductable_ref.spec_premise(directory)),
        deductable_ref.spec_assertion(directory).model(),
        formula,
        previous,
        directory,
    );
    match outcome {
        Deduction::Justified => None,
        Deduction::AssertionNotSubstitutable => match deductable_ref {
            DeductableRef::Axiom(_) => Some(ProofStepCheckingError::AxiomAssertionNotSubstitutable),
            DeductableRef::Theorem(_) => Some(ProofStepCheckingError::TheoremAssertionNotSubstitutable),
        },
        Deduction::NotSubstitutable => match deductable_ref {
            DeductableRef::Axiom(_) => Some(ProofStepCheckingError::AxiomNotSubstitutable),
            DeductableRef::Theorem(_) => Some(ProofStepCheckingError::TheoremNotSubstitutable),
        },
    }
}

/// Why a step of a proof holds.
pub enum ProofJustification {
    Axiom(AxiomRef),
    Theorem(TheoremRef),
    Hypothesis(HypothesisRef),
    Definition,
}

/// The errors of a justification: what it refers to must exist.
pub open spec fn justification_errors(
    justification: ProofJustification,
    num_hypotheses: nat,
    directory: CheckableDirectory,
) -> Seq<ProofStepCheckingError> {
    match justification {
        ProofJustification::Axiom(a) => if directory.has_axiom(a) {
            seq![]
        } else {
            seq![ProofStepCheckingError::InvalidAxiomRef]
        },
        ProofJustification::Theorem(t) => if directory.has_theorem(t) {
            seq![]
        } else {
            seq![ProofStepCheckingError::InvalidTheoremRef]
        },
        ProofJustification::Hypothesis(h) => if h.0 < num_hypotheses {
            seq![]
        } else {
            seq![ProofStepCheckingError::InvalidHypothesisRef]
        },
        ProofJustification::Definition => seq![],
    }
}

impl ProofJustification {
    /// The errors of the justification (see `justification_errors`).
    pub fn verify(&self, num_hypotheses: usize, directory: &CheckableDirectory) -> (r: Vec<
        ProofStepCheckingError,
    >)
        ensures
            r@ == justification_errors(*self, num_hypotheses as nat, *directory),
    {
        let mut errors = Vec::new();
        match self {
            ProofJustification::Axiom(a) => {
                if !directory.contains_axiom(*a) {
                    errors.push(ProofStepCheckingError::InvalidAxiomRef);
                }
            },
            ProofJustification::Theorem(t) => {
                if !directory.contains_theorem(*t) {
                    errors.push(ProofStepCheckingError::InvalidTheoremRef);
                }
            },
            ProofJustification::Hypothesis(h) => {
                if h.0 >= num_hypotheses {
                    errors.push(ProofStepCheckingError::InvalidHypothesisRef);
                }
            },
            ProofJustification::Definition => {},
        }
        errors
    }
}

/// The errors of a step: those of its justification, then those of its formula.
pub open spec fn step_errors(
    step: ProofStep,
    num_hypotheses: nat,
    local_directory: LocalCheckableDirectory,
    directory: CheckableDirectory,
) -> Seq<ProofStepCheckingError> {
    justification_errors(step.justification, num_hypotheses, directory) + formula_errors(
        step.formula.model(),
        local_directory,
        directory,
    ).map_values(|e: FormulaCheckingError| ProofStepCheckingError::FormulaError(e))
}

/// The error, if any, of a step whose references are valid, given the earlier steps and the
/// hypotheses of the theorem being proved: a deduction must go through, a hypothesis must be
/// repeated exactly, and an unfolding must be compatible with some earlier step.
pub open spec fn step_error(
    step: ProofStep,
    previous: Seq<FormulaModel>,
    premise: Seq<Formula>,
    directory: CheckableDirectory,
) -> Option<ProofStepCheckingError> {
    match step.justification {
        ProofJustification::Axiom(a) => deductable_error(
            DeductableRef::Axiom(a),
            step.formula.model(),
            previous,
            directory,
        ),
        ProofJustification::Theorem(t) => deductable_error(
            DeductableRef::Theorem(t),
            step.formula.model(),
            previous,
            directory,
        ),
        ProofJustification::Hypothesis(h) => if step.formula.model() == premise[h.0 as int].model() {
            None
        } else {
            Some(ProofStepCheckingError::HypothesisMismatch)
        },
        ProofJustification::Definition => if exists|j: int|
            0 <= j < previous.len() && compatible(
                #[trigger] previous[j],
                step.formula.model(),
                directory,
            ) {
            None
        } else {
            Some(ProofStepCheckingError::DefinitionMismatch)
        },
    }
}

/// The references of a step resolve.
pub open spec fn step_checkable(step: ProofStep, num_hypotheses: nat, directory: CheckableDirectory) -> bool {
    justification_errors(step.justification, num_hypotheses, directory).len() == 0
}

fn step_formula_error(e: FormulaCheckingError) -> (r: ProofStepCheckingError)
    ensures
        r == ProofStepCheckingError::FormulaError(e),
{
    ProofStepCheckingError::FormulaError(e)
}

pub struct ProofStep {
    pub justification: ProofJustification,
    pub formula: Formula,
}

impl ProofStep {
    pub fn new(justification: ProofJustification, formula: Formula) -> (r: ProofStep)
        ensures
            r.justification == justification,
            r.formula == formula,
    {
        ProofStep { justification, formula }
    }

    /// The errors of the step (see `step_errors`).
    pub fn verify(
        &self,
        num_hypotheses: usize,
        local_directory: &LocalCheckableDirectory,
        directory: &CheckableDirectory,
    ) -> (r: Vec<ProofStepCheckingError>)
        ensures
            r@ == step_errors(*self, num_hypotheses as nat, *local_directory, *directory),
    {
        let mut errors = self.justification.verify(num_hypotheses, directory);
        let inner = self.formula.verify(local_directory, directory);
        append_mapped(
            &mut errors,
            &inner,
            step_formula_error,
            Ghost(|e: FormulaCheckingError| ProofStepCheckingError::FormulaError(e)),
        );
        errors
    }

    /// The error, if any, of the step (see `step_error`).
    pub fn check(
        &self,
        previous: &Vec<&Formula>,
        premise: &Vec<Formula>,
        directory: &CheckableDirectory,
    ) -> (r: Option<ProofStepCheckingError>)
        requires
            step_checkable(*self, premise@.len(), *directory),
        ensures
            r == step_error(*self, ref_models(previous@), premise@, *directory),
    {
        match &self.justification {
            ProofJustification::Axiom(a) => {
                self.formula.check_deductable(&DeductableRef::Axiom(*a), previous, directory)
            },
            ProofJustification::Theorem(t) => {
                self.formula.check_deductable(&DeductableRef::Theorem(*t), previous, directory)
            },
            ProofJustification::Hypothesis(h) => {
                if self.formula.equals(&premise[h.0]) {
                    None
                } else {
                    Some(ProofStepCheckingError::HypothesisMismatch)
                }
            },
            ProofJustification::Definition => {
                let mut j: usize = 0;
                while j < previous.len()
                    invariant
                        j <= previous@.len(),
                        self.justification is Definition,
                        forall|k: int|
                            0 <= k < j ==> !compatible(
                                #[trigger] ref_models(previous@)[k],
                                self.formula.model(),
                                *directory,
                            ),
                    decreases previous@.len() - j,
                {
                    if previous[j].compatible(&self.formula, directory) {
                        assert(compatible(ref_models(previous@)[j as int], self.formula.model(), *directory));
                        return None;
                    }
                    j = j + 1;
                }
                Some(ProofStepCheckingError::DefinitionMismatch)
            },
        }
    }

    pub fn formula(&self) -> (r: &Formula)
        ensures
            *r == self.formula,
    {
        &self.formula
    }
}

/// The formulas of a list of steps.
pub open spec fn step_formulas(steps: Seq<ProofStep>) -> Seq<FormulaModel> {
    Seq::new(steps.len(), |k: int| steps[k].formula.model())
}

/// The errors of the `i`th step of a proof, tagged with the step.
pub open spec fn proof_step_part(
    steps: Seq<ProofStep>,
    num_hypotheses: nat,
    local_directory: LocalCheckableDirectory,
    directory: CheckableDirectory,
) -> spec_fn(nat) -> Seq<ProofCheckingError> {
    |i: nat|
        step_errors(steps[i as int], num_hypotheses, local_directory, directory).map_values(
            |e: ProofStepCheckingError| ProofCheckingError::StepError(ProofStepRef(i as usize), e),
        )
}

/// The errors of a proof of the theorem `theorem_ref` by `steps`: the theorem must exist, then
/// the errors of the steps, read against the variables and hypotheses of the theorem.
pub open spec fn steps_proof_errors(
    theorem_ref: TheoremRef,
    steps: Seq<ProofStep>,
    directory: CheckableDirectory,
) -> Seq<ProofCheckingError> {
    if !directory.has_theorem(theorem_ref) {
        seq![ProofCheckingError::InvalidTheoremRef]
    } else {
        let theorem = directory.theorems@[theorem_ref.0 as int];
        flatten(
            steps.len(),
            proof_step_part(steps, theorem.premise@.len(), theorem.local_directory, directory),
        )
    }
}

/// The errors of a proof (see `steps_proof_errors`).
pub open spec fn proof_errors(proof: Proof, directory: CheckableDirectory) -> Seq<ProofCheckingError> {
    steps_proof_errors(proof.theorem_ref, proof.steps@, directory)
}

/// The references of a proof resolve: its theorem and what each step appeals to.
pub open spec fn proof_checkable(proof: Proof, directory: CheckableDirectory) -> bool {
    &&& directory.has_theorem(proof.theorem_ref)
    &&& forall|i: int|
        0 <= i < proof.steps@.len() ==> step_checkable(
            #[trigger] proof.steps@[i],
            directory.theorems@[proof.theorem_ref.0 as int].premise@.len(),
            directory,
        )
}

/// A proof without errors can be checked.
pub proof fn lemma_proof_checkable(proof: Proof, directory: CheckableDirectory)
    requires
        proof_errors(proof, directory).len() == 0,
    ensures
        proof_checkable(proof, directory),
{
    let theorem = directory.theorems@[proof.theorem_ref.0 as int];
    let part = proof_step_part(
        proof.steps@,
        theorem.premise@.len(),
        theorem.local_directory,
        directory,
    );
    super::errors::lemma_flatten_empty(proof.steps@.len(), part);
    assert forall|i: int| 0 <= i < proof.steps@.len() implies step_checkable(
        #[trigger] proof.steps@[i],
        theorem.premise@.len(),
        directory,
    ) by {
        assert(part(i as nat).len() == 0);
    }
}

/// The error of the `i`th step of a proof, if any, tagged with the step.
pub open spec fn step_check_part(
    steps: Seq<ProofStep>,
    premise: Seq<Formula>,
    directory: CheckableDirectory,
) -> spec_fn(nat) -> Seq<ProofCheckingError> {
    |i: nat|
        match step_error(
            steps[i as int],
            step_formulas(steps.take(i as int)),
            premise,
            directory,
        ) {
            Some(e) => seq![ProofCheckingError::StepError(ProofStepRef(i as usize), e)],
            None => seq![],
        }
}

/// The errors of a proof of the theorem `theorem_ref` by `steps`, whose references resolve: it
/// must have a step, each step must hold given those before it, and the last step must be the
/// theorem's assertion.
pub open spec fn steps_check_errors(
    theorem_ref: TheoremRef,
    steps: Seq<ProofStep>,
    directory: CheckableDirectory,
) -> Seq<ProofCheckingError> {
    let theorem = directory.theorems@[theorem_ref.0 as int];
    if steps.len() == 0 {
        seq![ProofCheckingError::Empty]
    } else {
        flatten(steps.len(), step_check_part(steps, theorem.premise@, directory)) + if steps.last().formula.model()
            == theorem.assertion.model() {
            seq![]
        } else {
            seq![ProofCheckingError::AssertionMismatch]
        }
    }
}

/// The errors of a proof whose references resolve (see `steps_check_errors`).
pub open spec fn proof_check_errors(proof: Proof, directory: CheckableDirectory) -> Seq<
    ProofCheckingError,
> {
    steps_check_errors(proof.theorem_ref, proof.steps@, directory)
}

/// Two lists of steps with the same justifications and the same formulas, up to their models,
/// have the same errors.
pub proof fn lemma_steps_errors_by_model(
    theorem_ref: TheoremRef,
    a: Seq<ProofStep>,
    b: Seq<ProofStep>,
    directory: CheckableDirectory,
)
    requires
        a.len() == b.len(),
        forall|i: int|
            0 <= i < a.len() ==> (#[trigger] a[i]).justification == b[i].justification && a[i].formula.model()
                == b[i].formula.model(),
    ensures
        steps_proof_errors(theorem_ref, a, directory) == steps_proof_errors(theorem_ref, b, directory),
        steps_check_errors(theorem_ref, a, directory) == steps_check_errors(theorem_ref, b, directory),
{
    if directory.has_theorem(theorem_ref) {
        let theorem = directory.theorems@[theorem_ref.0 as int];
        let pa = proof_step_part(a, theorem.premise@.len(), theorem.local_directory, directory);
        let pb = proof_step_part(b, theorem.premise@.len(), theorem.local_directory, directory);
        assert forall|i: nat| i < a.len() implies #[trigger] pa(i) == pb(i) by {
            assert(a[i as int].justification == b[i as int].justification);
        }
        lemma_flatten_agree(a.len(), pa, pb);
    }
    let theorem = directory.theorems@[theorem_ref.0 as int];
    let ca = step_check_part(a, theorem.premise@, directory);
    let cb = step_check_part(b, theorem.premise@, directory);
    assert forall|i: nat| i < a.len() implies #[trigger] ca(i) == cb(i) by {
        assert(step_formulas(a.take(i as int)) =~= step_formulas(b.take(i as int)));
    }
    lemma_flatten_agree(a.len(), ca, cb);
}

/// Concatenations of parts that agree are equal.
pub proof fn lemma_flatten_agree<E>(n: nat, p: spec_fn(nat) -> Seq<E>, q: spec_fn(nat) -> Seq<E>)
    requires
        forall|i: nat| i < n ==> #[trigger] p(i) == q(i),
    ensures
        flatten(n, p) == flatten(n, q),
    decreases n,
{
    if n > 0 {
        lemma_flatten_agree((n - 1) as nat, p, q);
    }
}

fn proof_step_error(s: ProofStepRef, e: ProofStepCheckingError) -> (r: ProofCheckingError)
    ensures
        r == ProofCheckingError::StepError(s, e),
{
    ProofCheckingError::StepError(s, e)
}

/// A proof of a theorem, as a list of steps.
pub struct Proof {
    pub theorem_ref: TheoremRef,
    pub steps: Vec<ProofStep>,
}

impl Proof {
    pub fn new(theorem_ref: TheoremRef, steps: Vec<ProofStep>) -> (r: Proof)
        ensures
            r.theorem_ref == theorem_ref,
            r.steps == steps,
    {
        Proof { theorem_ref, steps }
    }

    /// The errors of the proof (see `proof_errors`).
    pub fn verify(&self, directory: &CheckableDirectory) -> (r: Vec<ProofCheckingError>)
        ensures
            r@ == proof_errors(*self, *directory),
    {
        let mut errors = Vec::new();
        if !directory.contains_theorem(self.theorem_ref) {
            errors.push(ProofCheckingError::InvalidTheoremRef);
            return errors;
        }
        let theorem = &directory.theorems[self.theorem_ref.0];
        let num_hypotheses = theorem.premise.len();
        let local_directory = &theorem.local_directory;
        let ghost part = proof_step_part(
            self.steps@,
            num_hypotheses as nat,
            *local_directory,
            *directory,
        );
        let mut i: usize = 0;
        while i < self.steps.len()
            invariant
                i <= self.steps@.len(),
                part == proof_step_part(
                    self.steps@,
                    num_hypotheses as nat,
                    *local_directory,
                    *directory,
                ),
                errors@ == flatten(i as nat, part),
            decreases self.steps@.len() - i,
        {
            let inner = self.steps[i].verify(num_hypotheses, local_directory, directory);
            append_tagged(
                &mut errors,
                ProofStepRef(i),
                &inner,
                proof_step_error,
                Ghost(|s: ProofStepRef, e: ProofStepCheckingError| ProofCheckingError::StepError(s, e)),
            );
            proof {
                assert(inner@.map_values(
                    |a: ProofStepCheckingError| ProofCheckingError::StepError(ProofStepRef(i), a),
                ) =~= part(i as nat));
            }
            i = i + 1;
        }
        errors
    }

    /// The errors of a proof whose references resolve (see `proof_check_errors`).
    pub fn check(&self, directory: &CheckableDirectory) -> (r: Vec<ProofCheckingError>)
        requires
            proof_checkable(*self, *directory),
        ensures
            r@ == proof_check_errors(*self, *directory),
    {
        let theorem = &directory.theorems[self.theorem_ref.0];
        let mut errors = Vec::new();
        if self.steps.len() == 0 {
            errors.push(ProofCheckingError::Empty);
            return errors;
        }
        let ghost part = step_check_part(self.steps@, theorem.premise@, *directory);
        let mut previous: Vec<&Formula> = Vec::new();
        let mut i: usize = 0;
        while i < self.steps.len()
            invariant
                i <= self.steps@.len(),
                proof_checkable(*self, *directory),
                *theorem == directory.theorems@[self.theorem_ref.0 as int],
                part == step_check_part(self.steps@, theorem.premise@, *directory),
                ref_models(previous@) == step_formulas(self.steps@.take(i as int)),
                errors@ == flatten(i as nat, part),
            decreases self.steps@.len() - i,
        {
            let step = &self.steps[i];
            match step.check(&previous, &theorem.premise, directory) {
                Some(e) => errors.push(ProofCheckingError::StepError(ProofStepRef(i), e)),
                None => {},
            }
            let ghost before = previous@;
            previous.push(&step.formula);
            proof {
                assert forall|k: int| 0 <= k < i + 1 implies #[trigger] ref_models(previous@)[k] == step_formulas(self.steps@.take(i + 1))[k] by {
                    assert(before.len() == i);
                    assert(previous@[k] == if k < i { before[k] } else { &step.formula });
                    if k < i {
                        assert(ref_models(before)[k] == step_formulas(self.steps@.take(i as int))[k]);
                    }
                }
                assert(ref_models(previous@) =~= step_formulas(self.steps@.take(i + 1)));
            }
            i = i + 1;
        }
        let last = &self.steps[self.steps.len() - 1];
        if !last.formula.equals(&theorem.assertion) {
            errors.push(ProofCheckingError::AssertionMismatch);
        }
        errors
    }
}

impl Axiom {
    /// Places the axiom in a system.
    pub fn set_system(&mut self, system_ref: SystemRef)
        ensures
            *final(self) == (Axiom { system_ref, ..*old(self) }),
    {
        self.system_ref = system_ref;
    }

    /// Gives the axiom its premise.
    pub fn set_premise(&mut self, premise: Vec<Formula>)
        ensures
            *final(self) == (Axiom { premise, ..*old(self) }),
    {
        self.premise = premise;
    }

    /// Gives the axiom its assertion.
    pub fn set_assertion(&mut self, assertion: Formula)
        ensures
            *final(self) == (Axiom { assertion, ..*old(self) }),
    {
        self.assertion = assertion;
    }
}

impl Theorem {
    /// Places the theorem in a system.
    pub fn set_system(&mut self, system_ref: SystemRef)
        ensures
            *final(self) == (Theorem { system_ref, ..*old(self) }),
    {
        self.system_ref = system_ref;
    }

    /// Gives the theorem its premise.
    pub fn set_premise(&mut self, premise: Vec<Formula>)
        ensures
            *final(self) == (Theorem { premise, ..*old(self) }),
    {
        self.premise = premise;
    }

    /// Gives the theorem its assertion.
    pub fn set_assertion(&mut self, assertion: Formula)
        ensures
            *final(self) == (Theorem { assertion, ..*old(self) }),
    {
        self.assertion = assertion;
    }
}

} // verus!

