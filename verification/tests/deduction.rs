use ckproof::deduction::directory::{
    AxiomRef, CheckableDirectory, DefinitionRef, HypothesisRef, LocalCheckableDirectory, ProofRef, ProofStepRef,
    SymbolRef, SystemRef, TheoremRef, TypeRef, VariableRef,
};
use ckproof::deduction::errors::{
    AxiomCheckingError, CheckingError, DefinitionCheckingError, CheckingErrorContext, FormulaCheckingError, ProofCheckingError,
    ProofStepCheckingError, SymbolCheckingError, TypeCheckingError, TypeSignatureCheckingError,
};
use ckproof::deduction::language::{Definition, Formula, Symbol, Type, TypeSignature, Variable};
use ckproof::deduction::substitution::{Substitution, SubstitutionList};
use ckproof::deduction::system::{
    check_deduction, Axiom, Deduction, Proof, ProofJustification, ProofStep, System, Theorem,
};

// A small logic: one type `prop`, the symbols `implies : prop -> prop -> prop`, `top : prop` and
// `bot : prop`, and the variables `p` and `q`.
const IMPLIES: SymbolRef = SymbolRef(0);
const TOP: SymbolRef = SymbolRef(1);
const BOT: SymbolRef = SymbolRef(2);
const P: VariableRef = VariableRef(0);
const Q: VariableRef = VariableRef(1);

fn prop() -> TypeSignature {
    TypeSignature::Ground(TypeRef(0))
}

fn binary() -> TypeSignature {
    TypeSignature::Compound(
        Box::new(prop()),
        Box::new(TypeSignature::Compound(Box::new(prop()), Box::new(prop()))),
    )
}

fn sym(s: SymbolRef) -> Formula {
    Formula::Symbol(s)
}

fn var(v: VariableRef) -> Formula {
    Formula::Variable(v)
}

fn implies(a: Formula, b: Formula) -> Formula {
    Formula::Application(
        Box::new(Formula::Application(Box::new(sym(IMPLIES)), Box::new(a))),
        Box::new(b),
    )
}

fn locals() -> LocalCheckableDirectory {
    LocalCheckableDirectory::new(vec![Variable::new("p".to_owned(), prop()), Variable::new("q".to_owned(), prop())])
}

fn no_locals() -> LocalCheckableDirectory {
    LocalCheckableDirectory::new(vec![])
}

/// Modus ponens: from `p` and `p -> q`, `q`.
fn modus_ponens() -> Axiom {
    Axiom::new(
        "mp".to_owned(),
        SystemRef(0),
        locals(),
        vec![var(P), implies(var(P), var(Q))],
        var(Q),
    )
}

/// `top` holds.
fn truth() -> Axiom {
    Axiom::new("truth".to_owned(), SystemRef(0), no_locals(), vec![], sym(TOP))
}

fn directory(theorems: Vec<Theorem>, proofs: Vec<Proof>) -> CheckableDirectory {
    CheckableDirectory::new(
        vec![System::new("logic".to_owned())],
        vec![Type::new("prop".to_owned(), SystemRef(0))],
        vec![
            Symbol::new("implies".to_owned(), SystemRef(0), binary()),
            Symbol::new("top".to_owned(), SystemRef(0), prop()),
            Symbol::new("bot".to_owned(), SystemRef(0), prop()),
        ],
        vec![],
        vec![modus_ponens(), truth()],
        theorems,
        proofs,
    )
}

/// From `top -> bot`, `bot`.
fn bot_theorem() -> Theorem {
    Theorem::new(
        "bot_from_top".to_owned(),
        SystemRef(0),
        no_locals(),
        vec![implies(sym(TOP), sym(BOT))],
        sym(BOT),
    )
}

fn good_proof() -> Proof {
    Proof::new(
        TheoremRef(0),
        vec![
            ProofStep::new(ProofJustification::Axiom(AxiomRef(1)), sym(TOP)),
            ProofStep::new(ProofJustification::Hypothesis(HypothesisRef(0)), implies(sym(TOP), sym(BOT))),
            ProofStep::new(ProofJustification::Axiom(AxiomRef(0)), sym(BOT)),
        ],
    )
}

#[test]
fn valid_proof_checks_without_errors() {
    let dir = directory(vec![bot_theorem()], vec![good_proof()]);
    assert!(dir.verify().is_empty());
    let context = dir.check();
    assert!(!context.error_found());
    assert!(context.errors.is_empty());
}

#[test]
fn modus_ponens_needs_its_premise() {
    // The implication is never stated, so modus ponens cannot be applied.
    let proof = Proof::new(
        TheoremRef(0),
        vec![
            ProofStep::new(ProofJustification::Axiom(AxiomRef(1)), sym(TOP)),
            ProofStep::new(ProofJustification::Axiom(AxiomRef(0)), sym(BOT)),
        ],
    );
    let dir = directory(vec![bot_theorem()], vec![proof]);
    let context = dir.check();
    assert_eq!(
        context.errors,
        vec![CheckingError::ProofError(
            ProofRef(0),
            ProofCheckingError::StepError(ProofStepRef(1), ProofStepCheckingError::AxiomNotSubstitutable),
        )]
    );
}

#[test]
fn axiom_assertion_must_match_the_step() {
    // `truth` only ever asserts `top`.
    let proof = Proof::new(TheoremRef(0), vec![ProofStep::new(ProofJustification::Axiom(AxiomRef(1)), sym(BOT))]);
    let dir = directory(vec![bot_theorem()], vec![proof]);
    let context = dir.check();
    assert_eq!(
        context.errors,
        vec![CheckingError::ProofError(
            ProofRef(0),
            ProofCheckingError::StepError(ProofStepRef(0), ProofStepCheckingError::AxiomAssertionNotSubstitutable),
        )]
    );
}

#[test]
fn hypothesis_must_be_the_premise() {
    let proof = Proof::new(
        TheoremRef(0),
        vec![ProofStep::new(ProofJustification::Hypothesis(HypothesisRef(0)), sym(BOT))],
    );
    let dir = directory(vec![bot_theorem()], vec![proof]);
    let context = dir.check();
    assert_eq!(
        context.errors,
        vec![CheckingError::ProofError(
            ProofRef(0),
            ProofCheckingError::StepError(ProofStepRef(0), ProofStepCheckingError::HypothesisMismatch),
        )]
    );
}

#[test]
fn empty_proof_is_an_error() {
    let dir = directory(vec![bot_theorem()], vec![Proof::new(TheoremRef(0), vec![])]);
    let context = dir.check();
    assert_eq!(context.errors, vec![CheckingError::ProofError(ProofRef(0), ProofCheckingError::Empty)]);
}

#[test]
fn proof_must_end_with_the_assertion() {
    let proof = Proof::new(TheoremRef(0), vec![ProofStep::new(ProofJustification::Axiom(AxiomRef(1)), sym(TOP))]);
    let dir = directory(vec![bot_theorem()], vec![proof]);
    let context = dir.check();
    assert_eq!(context.errors, vec![CheckingError::ProofError(ProofRef(0), ProofCheckingError::AssertionMismatch)]);
}

#[test]
fn invalid_references_are_reported_before_proofs_are_checked() {
    let proof = Proof::new(TheoremRef(3), vec![]);
    let bad_type = Type::new("bad".to_owned(), SystemRef(7));
    let bad_symbol = Symbol::new("bad".to_owned(), SystemRef(0), TypeSignature::Ground(TypeRef(9)));
    let mut dir = directory(vec![bot_theorem()], vec![proof]);
    dir.types.push(bad_type);
    dir.symbols.push(bad_symbol);
    let found = dir.verify();
    assert_eq!(
        found,
        vec![
            CheckingError::TypeError(TypeRef(1), TypeCheckingError::InvalidSystemRef),
            CheckingError::SymbolError(
                SymbolRef(3),
                SymbolCheckingError::TypeSignatureError(TypeSignatureCheckingError::InvalidTypeRef(TypeRef(9))),
            ),
            CheckingError::ProofError(ProofRef(0), ProofCheckingError::InvalidTheoremRef),
        ]
    );
    // With reference errors, `check` reports exactly those.
    assert_eq!(dir.check().errors, found);
}

#[test]
fn axiom_with_unknown_variable_is_reported() {
    let odd = Axiom::new("odd".to_owned(), SystemRef(0), no_locals(), vec![], var(VariableRef(4)));
    let dir = directory(vec![], vec![]);
    assert_eq!(
        odd.verify(&dir),
        vec![AxiomCheckingError::AssertionError(FormulaCheckingError::InvalidVariableRef(VariableRef(4)))]
    );
}

#[test]
fn substitution_matches_a_template() {
    let dir = directory(vec![], vec![]);
    let template = implies(var(P), var(Q));
    let target = implies(sym(TOP), sym(BOT));
    let substitution = Substitution::new(&template, &target, &dir).unwrap();
    assert!(substitution.get(P).unwrap().equals(&sym(TOP)));
    assert!(substitution.get(Q).unwrap().equals(&sym(BOT)));
    // A variable bound twice must be bound to the same formula.
    let twice = implies(var(P), var(P));
    assert!(Substitution::new(&twice, &target, &dir).is_none());
    assert!(Substitution::new(&twice, &implies(sym(TOP), sym(TOP)), &dir).is_some());
}

#[test]
fn substitution_merge_requires_agreement() {
    let dir = directory(vec![], vec![]);
    let a = Substitution::new(&var(P), &sym(TOP), &dir).unwrap();
    let b = Substitution::new(&var(P), &sym(BOT), &dir).unwrap();
    let c = Substitution::new(&var(Q), &sym(BOT), &dir).unwrap();
    assert!(a.merge(&b, &dir).is_none());
    let merged = a.merge(&c, &dir).unwrap();
    assert!(merged.get(P).unwrap().equals(&sym(TOP)));
    assert!(merged.get(Q).unwrap().equals(&sym(BOT)));
}

#[test]
fn substitution_list_finds_every_match() {
    let dir = directory(vec![], vec![]);
    let top = sym(TOP);
    let bot = sym(BOT);
    let possibilities = vec![&top, &bot];
    let list = SubstitutionList::find(&var(P), &possibilities, &dir);
    assert!(!list.impossible());
    assert_eq!(list.subs.len(), 2);
    let none = SubstitutionList::find(&sym(TOP), &vec![&bot], &dir);
    assert!(none.impossible());
}

#[test]
fn check_deduction_outcomes() {
    let dir = directory(vec![], vec![]);
    let mp = modus_ponens();
    let top = sym(TOP);
    let imp = implies(sym(TOP), sym(BOT));
    assert_eq!(check_deduction(&mp.premise, &mp.assertion, &sym(BOT), &vec![&top, &imp], &dir), Deduction::Justified);
    assert_eq!(
        check_deduction(&mp.premise, &mp.assertion, &sym(BOT), &vec![&top], &dir),
        Deduction::NotSubstitutable
    );
    let t = truth();
    assert_eq!(
        check_deduction(&t.premise, &t.assertion, &sym(BOT), &vec![], &dir),
        Deduction::AssertionNotSubstitutable
    );
}

#[test]
fn formula_substitution_replaces_variables() {
    let formula = implies(var(P), var(Q));
    let replaced = formula.substitute(&vec![P, Q], &vec![sym(TOP), sym(BOT)]);
    assert!(replaced.equals(&implies(sym(TOP), sym(BOT))));
    // A variable without a replacement stays.
    let partial = formula.substitute(&vec![P], &vec![sym(TOP)]);
    assert!(partial.equals(&implies(sym(TOP), var(Q))));
}

#[test]
fn definitions_expand_and_compare() {
    // `neg p` is defined as `p -> bot`.
    let neg = Definition::new(
        "neg".to_owned(),
        SystemRef(0),
        locals(),
        vec![P],
        prop(),
        implies(var(P), sym(BOT)),
    );
    let mut dir = directory(vec![], vec![]);
    assert!(neg.verify(&dir).is_empty());
    dir.definitions.push(neg);
    let use_of_neg = Formula::Definition(DefinitionRef(0), vec![sym(TOP)]);
    let expanded = use_of_neg.expand_definitions(&dir);
    assert!(expanded.equals(&implies(sym(TOP), sym(BOT))));
    assert!(use_of_neg.compatible(&implies(sym(TOP), sym(BOT)), &dir));
    assert!(!use_of_neg.compatible(&implies(sym(BOT), sym(BOT)), &dir));
    // A use with the wrong number of inputs is an error of the formula.
    let wrong = Formula::Definition(DefinitionRef(0), vec![]);
    assert_eq!(
        wrong.verify(&no_locals(), &dir),
        vec![FormulaCheckingError::DefinitionWrongArity(DefinitionRef(0))]
    );
}

#[test]
fn theorem_can_justify_a_later_proof() {
    // `bot` follows from `top -> bot` by the first theorem as well.
    let second = Theorem::new(
        "again".to_owned(),
        SystemRef(0),
        no_locals(),
        vec![implies(sym(TOP), sym(BOT))],
        sym(BOT),
    );
    let proof = Proof::new(
        TheoremRef(1),
        vec![
            ProofStep::new(ProofJustification::Hypothesis(HypothesisRef(0)), implies(sym(TOP), sym(BOT))),
            ProofStep::new(ProofJustification::Theorem(TheoremRef(0)), sym(BOT)),
        ],
    );
    let dir = directory(vec![bot_theorem(), second], vec![good_proof(), proof]);
    assert!(dir.check().errors.is_empty());
}

#[test]
fn error_context_records_in_order() {
    let mut context = CheckingErrorContext::new();
    assert!(!context.error_found());
    context.err(CheckingError::ProofError(ProofRef(1), ProofCheckingError::Empty));
    context.err(CheckingError::ProofError(ProofRef(0), ProofCheckingError::Empty));
    assert!(context.error_found());
    assert_eq!(context.errors[0], CheckingError::ProofError(ProofRef(1), ProofCheckingError::Empty));
}

#[test]
fn formulas_are_type_checked() {
    let dir = directory(vec![], vec![]);
    // `top` is not a function.
    let applied = Formula::Application(Box::new(sym(TOP)), Box::new(sym(BOT)));
    assert_eq!(applied.verify(&no_locals(), &dir), vec![FormulaCheckingError::ApplicationTypeMismatch]);
    // `implies` takes a proposition, not a function.
    let wrong_input = Formula::Application(Box::new(sym(IMPLIES)), Box::new(sym(IMPLIES)));
    assert_eq!(wrong_input.verify(&no_locals(), &dir), vec![FormulaCheckingError::ApplicationTypeMismatch]);
    assert!(implies(sym(TOP), sym(BOT)).verify(&no_locals(), &dir).is_empty());
    // An axiom with an ill-typed assertion is reported.
    let odd = Axiom::new("odd".to_owned(), SystemRef(0), no_locals(), vec![], applied);
    assert_eq!(
        odd.verify(&dir),
        vec![AxiomCheckingError::AssertionError(FormulaCheckingError::ApplicationTypeMismatch)]
    );
}

#[test]
fn definition_inputs_and_type_are_checked() {
    let neg = Definition::new("neg".to_owned(), SystemRef(0), locals(), vec![P], prop(), implies(var(P), sym(BOT)));
    let mut dir = directory(vec![], vec![]);
    dir.definitions.push(neg);
    // `implies` is not a proposition.
    let use_of_neg = Formula::Definition(DefinitionRef(0), vec![sym(IMPLIES)]);
    assert_eq!(
        use_of_neg.verify(&no_locals(), &dir),
        vec![FormulaCheckingError::DefinitionInputTypeMismatch(DefinitionRef(0), 0)]
    );
    // The declared type must be the type of the body.
    let declared = Definition::new(
        "neg2".to_owned(),
        SystemRef(0),
        locals(),
        vec![P],
        TypeSignature::Compound(Box::new(prop()), Box::new(prop())),
        implies(var(P), sym(BOT)),
    );
    assert_eq!(declared.verify(&dir), vec![DefinitionCheckingError::ExpandedTypeMismatch]);
}

#[test]
fn expansion_unfolds_every_definition_once_and_for_all() {
    // `neg p` is `p -> bot`; `dneg p` is `neg (neg p)`, using the definition before it.
    let neg = Definition::new("neg".to_owned(), SystemRef(0), locals(), vec![P], prop(), implies(var(P), sym(BOT)));
    let neg_of = |f: Formula| Formula::Definition(DefinitionRef(0), vec![f]);
    let dneg = Definition::new("dneg".to_owned(), SystemRef(0), locals(), vec![P], prop(), neg_of(neg_of(var(P))));
    let mut dir = directory(vec![], vec![]);
    dir.definitions.push(neg);
    dir.definitions.push(dneg);
    let use_of_dneg = Formula::Definition(DefinitionRef(1), vec![sym(TOP)]);
    let once = use_of_dneg.expand_definitions(&dir);
    assert!(once.equals(&implies(implies(sym(TOP), sym(BOT)), sym(BOT))));
    assert!(once.expand_definitions(&dir).equals(&once));
    let plain = implies(sym(TOP), sym(BOT));
    assert!(plain.expand_definitions(&dir).equals(&plain));
}

#[test]
fn definition_inputs_are_checked_for_their_type_only() {
    let neg = Definition::new("neg".to_owned(), SystemRef(0), locals(), vec![P], prop(), implies(var(P), sym(BOT)));
    let mut dir = directory(vec![], vec![]);
    dir.definitions.push(neg);
    // `(implies top) implies` is ill-typed inside, but it has the type of a proposition, which is
    // all that a use of a definition asks of its input.
    let odd_input = Formula::Application(
        Box::new(Formula::Application(Box::new(sym(IMPLIES)), Box::new(sym(TOP)))),
        Box::new(sym(IMPLIES)),
    );
    let use_of_neg = Formula::Definition(DefinitionRef(0), vec![odd_input]);
    assert!(use_of_neg.verify(&no_locals(), &dir).is_empty());
    // The type of a use of a definition is the type of its body.
    assert!(use_of_neg.type_signature(&no_locals(), &dir).unwrap().equals(&prop()));
}
