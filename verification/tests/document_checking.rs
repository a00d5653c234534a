use ckproof::deduction::directory::{
    AxiomRef, CheckableDirectory, HypothesisRef, LocalCheckableDirectory, SymbolRef, SystemRef, TheoremRef, TypeRef,
    VariableRef,
};
use ckproof::deduction::errors::{ProofCheckingError, ProofStepCheckingError};
use ckproof::deduction::language::{Formula, Symbol, Type, TypeSignature, Variable};
use ckproof::deduction::system::{Axiom, ProofJustification, System, Theorem};
use ckproof::document::directory::{AxiomBlockRef, ProofBlockRef, ProofBlockStepRef, TheoremBlockRef};
use ckproof::document::errors::{DocumentCheckingError, DocumentCheckingErrorContext};
use ckproof::document::system::{
    DeductableBlockRef, ProofBlock, ProofBlockElement, ProofBlockJustification, ProofBlockSmallJustification,
    ProofBlockSmallStep, ProofBlockStep,
};
use ckproof::document::text::MathBlock;
use ckproof::rendered::TextRendered;
use ckproof::FileLocation;

// The logic of the deduction tests: one type `prop`, the symbols `implies`, `top` and `bot`,
// the axioms modus ponens (number 0) and `top` (number 1), and the theorem "from `top -> bot`,
// `bot`" (number 0).
const IMPLIES: SymbolRef = SymbolRef(0);
const TOP: SymbolRef = SymbolRef(1);
const BOT: SymbolRef = SymbolRef(2);

fn prop() -> TypeSignature {
    TypeSignature::Ground(TypeRef(0))
}

fn binary() -> TypeSignature {
    TypeSignature::Compound(
        Box::new(prop()),
        Box::new(TypeSignature::Compound(Box::new(prop()), Box::new(prop()))),
    )
}

fn sym(s: SymbolRef) -> Formula {
    Formula::Symbol(s)
}

fn var(v: usize) -> Formula {
    Formula::Variable(VariableRef(v))
}

fn implies(a: Formula, b: Formula) -> Formula {
    Formula::Application(
        Box::new(Formula::Application(Box::new(sym(IMPLIES)), Box::new(a))),
        Box::new(b),
    )
}

fn directory() -> CheckableDirectory {
    let locals = LocalCheckableDirectory::new(vec![
        Variable::new("p".to_owned(), prop()),
        Variable::new("q".to_owned(), prop()),
    ]);
    let mp = Axiom::new("mp".to_owned(), SystemRef(0), locals, vec![var(0), implies(var(0), var(1))], var(1));
    let truth = Axiom::new(
        "truth".to_owned(),
        SystemRef(0),
        LocalCheckableDirectory::new(vec![]),
        vec![],
        sym(TOP),
    );
    let theorem = Theorem::new(
        "bot_from_top".to_owned(),
        SystemRef(0),
        LocalCheckableDirectory::new(vec![]),
        vec![implies(sym(TOP), sym(BOT))],
        sym(BOT),
    );
    CheckableDirectory::new(
        vec![System::new("logic".to_owned())],
        vec![Type::new("prop".to_owned(), SystemRef(0))],
        vec![
            Symbol::new("implies".to_owned(), SystemRef(0), binary()),
            Symbol::new("top".to_owned(), SystemRef(0), prop()),
            Symbol::new("bot".to_owned(), SystemRef(0), prop()),
        ],
        vec![],
        vec![mp, truth],
        vec![theorem],
        vec![],
    )
}

fn by_axiom(i: usize) -> ProofBlockSmallJustification {
    ProofBlockSmallJustification::Deductable(DeductableBlockRef::Axiom(AxiomBlockRef(i)))
}

fn step(justification: ProofBlockJustification, small_steps: Vec<ProofBlockSmallStep>, tag: usize) -> ProofBlockElement {
    ProofBlockElement::Step(ProofBlockStep::new(
        FileLocation::new("a.math".to_owned(), 1, 1, 1, 1, &vec![]),
        justification,
        small_steps,
        MathBlock::new(vec![]),
        ".".to_owned(),
        format!("step-{}", tag),
        format!("#step-{}", tag),
        tag,
    ))
}

fn small(justification: ProofBlockSmallJustification, formula: Formula) -> ProofBlockSmallStep {
    ProofBlockSmallStep::new(justification, formula)
}

fn text() -> ProofBlockElement {
    ProofBlockElement::Text(TextRendered::Paragraph("We begin.".to_owned()))
}

fn deductable(i: usize) -> ProofBlockJustification {
    ProofBlockJustification::Deductable(DeductableBlockRef::Axiom(AxiomBlockRef(i)))
}

fn good_block() -> ProofBlock {
    ProofBlock::new(
        TheoremBlockRef(0),
        vec![
            text(),
            step(deductable(1), vec![small(by_axiom(1), sym(TOP))], 1),
            step(
                ProofBlockJustification::Hypothesis(1),
                vec![small(ProofBlockSmallJustification::Hypothesis(1), implies(sym(TOP), sym(BOT)))],
                2,
            ),
            step(deductable(0), vec![small(by_axiom(0), sym(BOT))], 3),
        ],
    )
}

#[test]
fn checkable_proof_flattens_small_steps() {
    let proof = good_block().checkable();
    assert_eq!(proof.theorem_ref, TheoremRef(0));
    assert_eq!(proof.steps.len(), 3);
    assert!(matches!(proof.steps[0].justification, ProofJustification::Axiom(AxiomRef(1))));
    // Premises are counted from one in the text and from zero in deduction.
    assert!(matches!(proof.steps[1].justification, ProofJustification::Hypothesis(HypothesisRef(0))));
    assert!(matches!(proof.steps[2].justification, ProofJustification::Axiom(AxiomRef(0))));
    assert!(proof.steps[2].formula.equals(&sym(BOT)));
}

#[test]
fn valid_proof_block_checks_without_errors() {
    let dir = directory();
    let block = good_block();
    assert!(block.verify(&dir).is_empty());
    let mut errors = DocumentCheckingErrorContext::new();
    block.check(ProofBlockRef(0), &dir, &mut errors);
    assert!(!errors.error_found());
}

#[test]
fn step_not_matching_its_axiom_is_reported_at_its_step() {
    let dir = directory();
    // `top` does not give `bot`.
    let block = ProofBlock::new(TheoremBlockRef(0), vec![text(), step(deductable(1), vec![small(by_axiom(1), sym(BOT))], 1)]);
    assert!(block.verify(&dir).is_empty());
    let found = block.checkable().check(&dir);
    assert_eq!(
        found,
        vec![ProofCheckingError::StepError(
            ckproof::deduction::directory::ProofStepRef(0),
            ProofStepCheckingError::AxiomAssertionNotSubstitutable
        )]
    );
    let mut errors = DocumentCheckingErrorContext::new();
    block.check(ProofBlockRef(4), &dir, &mut errors);
    assert!(errors.error_found());
    assert_eq!(
        errors.errors,
        vec![DocumentCheckingError::DeductableAssertionNotSubstitutable(
            ProofBlockRef(4),
            ProofBlockStepRef(ProofBlockRef(4), 1)
        )]
    );
}

#[test]
fn proof_ending_elsewhere_is_reported() {
    let dir = directory();
    let block = ProofBlock::new(TheoremBlockRef(0), vec![step(deductable(1), vec![small(by_axiom(1), sym(TOP))], 1)]);
    let mut errors = DocumentCheckingErrorContext::new();
    block.check(ProofBlockRef(2), &dir, &mut errors);
    assert_eq!(errors.errors, vec![DocumentCheckingError::AssertionMismatch(ProofBlockRef(2))]);
}

#[test]
fn unknown_axiom_is_a_reference_error() {
    let dir = directory();
    let block = ProofBlock::new(TheoremBlockRef(0), vec![step(deductable(7), vec![small(by_axiom(7), sym(BOT))], 1)]);
    let found = block.verify(&dir);
    assert_eq!(
        found,
        vec![ProofCheckingError::StepError(
            ckproof::deduction::directory::ProofStepRef(0),
            ProofStepCheckingError::InvalidAxiomRef
        )]
    );
}

#[test]
fn small_steps_are_found_in_their_step() {
    let block = ProofBlock::new(
        TheoremBlockRef(0),
        vec![
            text(),
            step(deductable(1), vec![small(by_axiom(1), sym(TOP)), small(by_axiom(1), sym(TOP))], 1),
            step(ProofBlockJustification::Substitution, vec![], 2),
            step(deductable(1), vec![small(by_axiom(1), sym(TOP))], 3),
        ],
    );
    assert_eq!(block.get_step(0), Ok(1));
    assert_eq!(block.get_step(1), Err(Some(1)));
    // The empty step and the one after it both begin at the third small step: the first is found.
    assert_eq!(block.get_step(2), Ok(2));
    assert_eq!(block.get_step(3), Err(None));
}

#[test]
fn justification_names_its_deductable() {
    let j = deductable(3);
    assert_eq!(j.deductable(), Some(&DeductableBlockRef::Axiom(AxiomBlockRef(3))));
    assert_eq!(ProofBlockJustification::Definition.deductable(), None);
}
