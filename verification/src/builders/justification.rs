use vstd::prelude::*;

use super::language::{DeductableBuilder, FormulaBuilder, PropertyModel, ReadableBuilder, first_binding};
use super::system::{MacroJustificationBuilder, ProofBuilderElement, PropertyTable};

verus! {

/// How a small step of a proof is justified: by an axiom or theorem, by a premise, or by
/// unfolding a definition.
pub enum ProofBuilderSmallJustification {
    Deductable(DeductableBuilder),
    Hypothesis(usize),
    Definition,
}

/// A small step of a proof: a justification and the formula it yields.
pub struct ProofBuilderSmallStep {
    pub justification: ProofBuilderSmallJustification,
    pub formula: FormulaBuilder,
}

/// Whether a formula is one that was read from a document: built from symbols, variables and
/// operators, without applications made up in building small steps.
pub open spec fn parsed(formula: FormulaBuilder) -> bool
    decreases formula,
{
    match formula {
        FormulaBuilder::Symbol(_) => true,
        FormulaBuilder::Variable(_) => true,
        FormulaBuilder::Prefix(_, inner) => parsed(*inner),
        FormulaBuilder::Infix(_, lhs, rhs) => parsed(*lhs) && parsed(*rhs),
        FormulaBuilder::ReadableApplication(_, _) => false,
    }
}

/// Whether two formulas read from a document are the same: the same variable, or the same
/// operator applied to the same formulas.
pub open spec fn parsed_eq(a: FormulaBuilder, b: FormulaBuilder) -> bool
    decreases a,
{
    match (a, b) {
        (FormulaBuilder::Variable(x), FormulaBuilder::Variable(y)) => x == y,
        (FormulaBuilder::Prefix(r, x), FormulaBuilder::Prefix(s, y)) => r == s && parsed_eq(*x, *y),
        (FormulaBuilder::Infix(r, x1, x2), FormulaBuilder::Infix(s, y1, y2)) => r == s && parsed_eq(*x1, *y1)
            && parsed_eq(*x2, *y2),
        _ => false,
    }
}

/// Whether comparing two formulas read from a document never compares two symbols, which the
/// comparison does not decide.
pub open spec fn parsed_eq_defined(a: FormulaBuilder, b: FormulaBuilder) -> bool
    decreases a,
{
    match (a, b) {
        (FormulaBuilder::Symbol(_), FormulaBuilder::Symbol(_)) => false,
        (FormulaBuilder::Prefix(r, x), FormulaBuilder::Prefix(s, y)) => r == s ==> parsed_eq_defined(*x, *y),
        (FormulaBuilder::Infix(r, x1, x2), FormulaBuilder::Infix(s, y1, y2)) => r == s ==> (parsed_eq_defined(
            *x1,
            *y1,
        ) && (parsed_eq(*x1, *y1) ==> parsed_eq_defined(*x2, *y2))),
        _ => true,
    }
}

impl FormulaBuilder {
    /// A copy of a formula read from a document.
    pub fn duplicate(&self) -> (r: FormulaBuilder)
        requires
            parsed(*self),
        ensures
            r == *self,
        decreases self,
    {
        match self {
            FormulaBuilder::Symbol(s) => FormulaBuilder::Symbol(*s),
            FormulaBuilder::Variable(v) => FormulaBuilder::Variable(*v),
            FormulaBuilder::Prefix(r, inner) => FormulaBuilder::Prefix(*r, Box::new(inner.duplicate())),
            FormulaBuilder::Infix(r, lhs, rhs) => FormulaBuilder::Infix(
                *r,
                Box::new(lhs.duplicate()),
                Box::new(rhs.duplicate()),
            ),
            FormulaBuilder::ReadableApplication(_, _) => FormulaBuilder::Variable(super::directory::VariableBuilderRef(0)),
        }
    }

    /// Whether two formulas read from a document are the same (see `parsed_eq`).
    pub fn equals(&self, other: &FormulaBuilder) -> (r: bool)
        requires
            parsed_eq_defined(*self, *other),
        ensures
            r == parsed_eq(*self, *other),
        decreases self,
    {
        match (self, other) {
            (FormulaBuilder::Variable(x), FormulaBuilder::Variable(y)) => x == y,
            (FormulaBuilder::Prefix(r, x), FormulaBuilder::Prefix(s, y)) => *r == *s && x.equals(y),
            (FormulaBuilder::Infix(r, x1, x2), FormulaBuilder::Infix(s, y1, y2)) => *r == *s && x1.equals(y1)
                && x2.equals(y2),
            _ => false,
        }
    }
}

/// Whether an earlier element of a proof derived `left R right`: a step whose formula applies
/// `R` as an infix operator to the two sides.
pub open spec fn derives(element: ProofBuilderElement, relation: ReadableBuilder, left: FormulaBuilder, right: FormulaBuilder) -> bool {
    match element {
        ProofBuilderElement::Step(step) => match step.formula.formula {
            FormulaBuilder::Infix(op, x, y) => relation == op && parsed_eq(left, *x) && parsed_eq(right, *y),
            _ => false,
        },
        _ => false,
    }
}

/// Whether comparing `left R right` with the formula of an element is decided: a step whose
/// formula is a symbol or a prefix application is not compared.
pub open spec fn derives_defined(
    element: ProofBuilderElement,
    relation: ReadableBuilder,
    left: FormulaBuilder,
    right: FormulaBuilder,
) -> bool {
    match element {
        ProofBuilderElement::Step(step) => match step.formula.formula {
            FormulaBuilder::Symbol(_) => false,
            FormulaBuilder::Prefix(_, _) => false,
            FormulaBuilder::Infix(op, x, y) => relation == op ==> (parsed_eq_defined(left, *x) && (parsed_eq(left, *x)
                ==> parsed_eq_defined(right, *y))),
            _ => true,
        },
        _ => true,
    }
}

/// Whether one of the first `n` elements derived `left R right`.
pub open spec fn derived_before(
    prev: Seq<ProofBuilderElement>,
    n: nat,
    relation: ReadableBuilder,
    left: FormulaBuilder,
    right: FormulaBuilder,
) -> bool
    decreases n,
{
    if n == 0 || n > prev.len() {
        false
    } else {
        derived_before(prev, (n - 1) as nat, relation, left, right) || derives(prev[n - 1], relation, left, right)
    }
}

/// Whether looking for `left R right` among the first `n` elements, in order and stopping at the
/// first that derived it, only makes comparisons that are decided.
pub open spec fn derived_before_defined(
    prev: Seq<ProofBuilderElement>,
    n: nat,
    relation: ReadableBuilder,
    left: FormulaBuilder,
    right: FormulaBuilder,
) -> bool
    decreases n,
{
    if n == 0 || n > prev.len() {
        true
    } else {
        derived_before_defined(prev, (n - 1) as nat, relation, left, right) && (!derived_before(
            prev,
            (n - 1) as nat,
            relation,
            left,
            right,
        ) ==> derives_defined(prev[n - 1], relation, left, right))
    }
}

/// Whether an earlier element derived `left R right`.
pub open spec fn derived(prev: Seq<ProofBuilderElement>, relation: ReadableBuilder, left: FormulaBuilder, right: FormulaBuilder) -> bool {
    derived_before(prev, prev.len(), relation, left, right)
}

/// The small steps that derive `left R right` from earlier elements for a preorder `R`, each as
/// the statement that justifies it with the two sides it relates: none where the proof derived
/// it already; by symmetry where it derived `right R left`; by reflexivity where the sides are the
/// same; and otherwise, where both sides apply one operator, the steps for each pair of inputs
/// followed by the statement that makes the operator a function over `R`.
pub open spec fn function_application_steps(
    left: FormulaBuilder,
    right: FormulaBuilder,
    relation: ReadableBuilder,
    prev: Seq<ProofBuilderElement>,
    table: Map<ReadableBuilder, PropertyModel>,
) -> Seq<(DeductableBuilder, FormulaBuilder, FormulaBuilder)>
    decreases left,
{
    if derived(prev, relation, left, right) {
        seq![]
    } else if table[relation].symmetric is Some && derived(prev, relation, right, left) {
        seq![(table[relation].symmetric->0, left, right)]
    } else if parsed_eq(left, right) {
        seq![(table[relation].reflexive->0, left, right)]
    } else {
        match (left, right) {
            (FormulaBuilder::Prefix(f, x), FormulaBuilder::Prefix(_, y)) => function_application_steps(
                *x,
                *y,
                relation,
                prev,
                table,
            ) + seq![(first_binding(table[f].function, relation)->0, left, right)],
            (FormulaBuilder::Infix(f, x1, x2), FormulaBuilder::Infix(_, y1, y2)) => function_application_steps(
                *x1,
                *y1,
                relation,
                prev,
                table,
            ) + function_application_steps(*x2, *y2, relation, prev, table) + seq![
                (first_binding(table[f].function, relation)->0, left, right),
            ],
            _ => seq![],
        }
    }
}

/// Whether the small steps for `left R right` can be found: every comparison made is decided, a
/// property that a step needs is recorded, and where neither side was derived nor the sides are
/// the same, both sides apply the same operator with inputs of the same number.
pub open spec fn function_application_defined(
    left: FormulaBuilder,
    right: FormulaBuilder,
    relation: ReadableBuilder,
    prev: Seq<ProofBuilderElement>,
    table: Map<ReadableBuilder, PropertyModel>,
) -> bool
    decreases left,
{
    &&& parsed(left)
    &&& parsed(right)
    &&& table.dom().contains(relation)
    &&& derived_before_defined(prev, prev.len(), relation, left, right)
    &&& !derived(prev, relation, left, right) ==> {
        &&& table[relation].symmetric is Some ==> derived_before_defined(prev, prev.len(), relation, right, left)
        &&& !(table[relation].symmetric is Some && derived(prev, relation, right, left)) ==> {
            &&& parsed_eq_defined(left, right)
            &&& parsed_eq(left, right) ==> table[relation].reflexive is Some
            &&& !parsed_eq(left, right) ==> match (left, right) {
                (FormulaBuilder::Prefix(f, x), FormulaBuilder::Prefix(g, y)) => {
                    &&& f == g
                    &&& table.dom().contains(f)
                    &&& first_binding(table[f].function, relation) is Some
                    &&& function_application_defined(*x, *y, relation, prev, table)
                },
                (FormulaBuilder::Infix(f, x1, x2), FormulaBuilder::Infix(g, y1, y2)) => {
                    &&& f == g
                    &&& table.dom().contains(f)
                    &&& first_binding(table[f].function, relation) is Some
                    &&& function_application_defined(*x1, *y1, relation, prev, table)
                    &&& function_application_defined(*x2, *y2, relation, prev, table)
                },
                _ => false,
            }
        }
    }
}

/// Whether a small step derives `left R right` with the given justification.
pub open spec fn step_is(
    step: ProofBuilderSmallStep,
    justification: DeductableBuilder,
    relation: ReadableBuilder,
    left: FormulaBuilder,
    right: FormulaBuilder,
) -> bool {
    &&& step.justification == ProofBuilderSmallJustification::Deductable(justification)
    &&& step.formula matches FormulaBuilder::ReadableApplication(r, inputs)
    &&& r == relation
    &&& inputs@ == seq![left, right]
}

/// Whether a list of small steps is, in order, the steps of a list of justifications and sides.
pub open spec fn steps_are(
    steps: Seq<ProofBuilderSmallStep>,
    expected: Seq<(DeductableBuilder, FormulaBuilder, FormulaBuilder)>,
    relation: ReadableBuilder,
) -> bool {
    &&& steps.len() == expected.len()
    &&& forall|i: int| 0 <= i < steps.len() ==> step_is(#[trigger] steps[i], expected[i].0, relation, expected[i].1, expected[i].2)
}

/// Whether an element derives `left R right` (see `derives`).
fn element_derives(
    element: &ProofBuilderElement,
    relation: ReadableBuilder,
    left: &FormulaBuilder,
    right: &FormulaBuilder,
) -> (r: bool)
    requires
        derives_defined(*element, relation, *left, *right),
    ensures
        r == derives(*element, relation, *left, *right),
{
    match element {
        ProofBuilderElement::Step(step) => match &step.formula.formula {
            FormulaBuilder::Infix(op, x, y) => relation == *op && left.equals(x) && right.equals(y),
            _ => false,
        },
        _ => false,
    }
}

/// Whether an earlier element derived `left R right`, looking in order.
fn derived_earlier(
    prev: &Vec<ProofBuilderElement>,
    relation: ReadableBuilder,
    left: &FormulaBuilder,
    right: &FormulaBuilder,
) -> (r: bool)
    requires
        derived_before_defined(prev@, prev@.len(), relation, *left, *right),
    ensures
        r == derived(prev@, relation, *left, *right),
{
    let mut i: usize = 0;
    while i < prev.len()
        invariant
            i <= prev@.len(),
            derived_before_defined(prev@, prev@.len(), relation, *left, *right),
            !derived_before(prev@, i as nat, relation, *left, *right),
        decreases prev@.len() - i,
    {
        proof {
            lemma_defined_prefix(prev@, prev@.len(), (i + 1) as nat, relation, *left, *right);
        }
        if element_derives(&prev[i], relation, left, right) {
            proof {
                lemma_derived_prefix(prev@, (i + 1) as nat, prev@.len(), relation, *left, *right);
            }
            return true;
        }
        i = i + 1;
    }
    false
}

proof fn lemma_defined_prefix(
    prev: Seq<ProofBuilderElement>,
    n: nat,
    m: nat,
    relation: ReadableBuilder,
    left: FormulaBuilder,
    right: FormulaBuilder,
)
    requires
        m <= n <= prev.len(),
        derived_before_defined(prev, n, relation, left, right),
    ensures
        derived_before_defined(prev, m, relation, left, right),
    decreases n,
{
    if m < n {
        lemma_defined_prefix(prev, (n - 1) as nat, m, relation, left, right);
    }
}

proof fn lemma_derived_prefix(
    prev: Seq<ProofBuilderElement>,
    m: nat,
    n: nat,
    relation: ReadableBuilder,
    left: FormulaBuilder,
    right: FormulaBuilder,
)
    requires
        m <= n <= prev.len(),
        derived_before(prev, m, relation, left, right),
    ensures
        derived_before(prev, n, relation, left, right),
    decreases n,
{
    if m < n {
        lemma_derived_prefix(prev, m, (n - 1) as nat, relation, left, right);
    }
}

/// The small step that a statement justifies: `left R right`.
fn small_step(
    justification: DeductableBuilder,
    relation: ReadableBuilder,
    left: &FormulaBuilder,
    right: &FormulaBuilder,
) -> (r: ProofBuilderSmallStep)
    requires
        parsed(*left),
        parsed(*right),
    ensures
        step_is(r, justification, relation, *left, *right),
{
    let mut inputs: Vec<FormulaBuilder> = Vec::new();
    inputs.push(left.duplicate());
    inputs.push(right.duplicate());
    proof {
        assert(inputs@ =~= seq![*left, *right]);
    }
    ProofBuilderSmallStep {
        justification: ProofBuilderSmallJustification::Deductable(justification),
        formula: FormulaBuilder::ReadableApplication(relation, inputs),
    }
}

/// Appends the steps of `more` to `steps`.
fn append_steps(
    steps: &mut Vec<ProofBuilderSmallStep>,
    more: Vec<ProofBuilderSmallStep>,
    Ghost(expected): Ghost<Seq<(DeductableBuilder, FormulaBuilder, FormulaBuilder)>>,
    Ghost(more_expected): Ghost<Seq<(DeductableBuilder, FormulaBuilder, FormulaBuilder)>>,
    Ghost(relation): Ghost<ReadableBuilder>,
)
    requires
        steps_are(old(steps)@, expected, relation),
        steps_are(more@, more_expected, relation),
    ensures
        steps_are(final(steps)@, expected + more_expected, relation),
{
    let mut more = more;
    let ghost before = steps@;
    let ghost more_view = more@;
    steps.append(&mut more);
    assert(steps@ =~= before + more_view);
    assert forall|i: int| 0 <= i < steps@.len() implies step_is(
        #[trigger] steps@[i],
        (expected + more_expected)[i].0,
        relation,
        (expected + more_expected)[i].1,
        (expected + more_expected)[i].2,
    ) by {
        if i >= before.len() {
            assert(steps@[i] == more_view[i - before.len()]);
        }
    }
}

impl MacroJustificationBuilder {
    /// The small steps that derive `left R right` for a preorder `R` from the earlier elements of
    /// a proof (see `function_application_steps`).
    pub fn build_function_application_iter(
        left: &FormulaBuilder,
        right: &FormulaBuilder,
        relation: ReadableBuilder,
        prev: &Vec<ProofBuilderElement>,
        table: &PropertyTable,
    ) -> (r: Vec<ProofBuilderSmallStep>)
        requires
            function_application_defined(*left, *right, relation, prev@, table.model()),
        ensures
            steps_are(r@, function_application_steps(*left, *right, relation, prev@, table.model()), relation),
        decreases left,
    {
        let ghost expected = function_application_steps(*left, *right, relation, prev@, table.model());
        let mut steps: Vec<ProofBuilderSmallStep> = Vec::new();
        if derived_earlier(prev, relation, left, right) {
            assert(expected =~= seq![]);
            return steps;
        }
        let properties = table.get(relation);
        if properties.is_symmetric() && derived_earlier(prev, relation, right, left) {
            let d = properties.get_symmetric();
            match d {
                Some(d) => steps.push(small_step(d, relation, left, right)),
                None => {},
            }
            return steps;
        }
        if left.equals(right) {
            let d = properties.get_reflexive();
            match d {
                Some(d) => steps.push(small_step(d, relation, left, right)),
                None => {},
            }
            return steps;
        }
        match (left, right) {
            (FormulaBuilder::Prefix(f, x), FormulaBuilder::Prefix(_, y)) => {
                let inner = Self::build_function_application_iter(x, y, relation, prev, table);
                append_steps(&mut steps, inner, Ghost(Seq::<(DeductableBuilder, FormulaBuilder, FormulaBuilder)>::empty()), Ghost(function_application_steps(**x, **y, relation, prev@, table.model())), Ghost(relation));
                let d = table.get(*f).get_function(relation);
                match d {
                    Some(d) => steps.push(small_step(d, relation, left, right)),
                    None => {},
                }
                steps
            },
            (FormulaBuilder::Infix(f, x1, x2), FormulaBuilder::Infix(_, y1, y2)) => {
                let first = Self::build_function_application_iter(x1, y1, relation, prev, table);
                let second = Self::build_function_application_iter(x2, y2, relation, prev, table);
                let d = table.get(*f).get_function(relation);
                let mut all = first;
                append_steps(&mut all, second, Ghost(function_application_steps(**x1, **y1, relation, prev@, table.model())), Ghost(function_application_steps(**x2, **y2, relation, prev@, table.model())), Ghost(relation));
                match d {
                    Some(d) => all.push(small_step(d, relation, left, right)),
                    None => {},
                }
                all
            },
            _ => steps,
        }
    }
}

/// Whether the small steps of a step justified by function application can be found: its formula
/// relates two formulas by a preorder, and the steps for them can be found.
pub open spec fn function_application_claim_defined(
    formula: FormulaBuilder,
    prev: Seq<ProofBuilderElement>,
    table: Map<ReadableBuilder, PropertyModel>,
) -> bool {
    match formula {
        FormulaBuilder::Infix(relation, left, right) => {
            &&& table.dom().contains(relation)
            &&& table[relation].reflexive is Some
            &&& table[relation].transitive is Some
            &&& function_application_defined(*left, *right, relation, prev, table)
        },
        _ => false,
    }
}

impl MacroJustificationBuilder {
    /// The small steps of a step whose formula `left R right` is justified by function
    /// application (see `function_application_steps`).
    pub fn build_function_application(
        formula: &FormulaBuilder,
        prev: &Vec<ProofBuilderElement>,
        table: &PropertyTable,
    ) -> (r: Option<Vec<ProofBuilderSmallStep>>)
        requires
            function_application_claim_defined(*formula, prev@, table.model()),
        ensures
            r matches Some(steps) && (*formula matches FormulaBuilder::Infix(relation, left, right) && steps_are(
                steps@,
                function_application_steps(*left, *right, relation, prev@, table.model()),
                relation,
            )),
    {
        match formula.binary() {
            Some((relation, left, right)) => {
                if !table.get(relation).is_preorder() {
                    return Some(Vec::new());
                }
                Some(Self::build_function_application_iter(left, right, relation, prev, table))
            },
            None => Some(Vec::new()),
        }
    }

    /// The small steps of a step justified by this rule: unfolding a definition is one step with
    /// the formula itself; function application gives the steps that derive it.
    pub fn build_small_steps(
        &self,
        formula: &FormulaBuilder,
        prev: &Vec<ProofBuilderElement>,
        table: &PropertyTable,
    ) -> (r: Option<Vec<ProofBuilderSmallStep>>)
        requires
            *self == MacroJustificationBuilder::Definition ==> parsed(*formula),
            *self == MacroJustificationBuilder::FunctionApplication ==> function_application_claim_defined(
                *formula,
                prev@,
                table.model(),
            ),
        ensures
            r is Some,
            *self == MacroJustificationBuilder::Definition ==> (r matches Some(steps) && steps@.len() == 1
                && steps@[0].justification is Definition && steps@[0].formula == *formula),
            *self == MacroJustificationBuilder::FunctionApplication ==> (r matches Some(steps) && (
            *formula matches FormulaBuilder::Infix(relation, left, right) && steps_are(
                steps@,
                function_application_steps(*left, *right, relation, prev@, table.model()),
                relation,
            ))),
    {
        match self {
            MacroJustificationBuilder::Definition => {
                let mut steps: Vec<ProofBuilderSmallStep> = Vec::new();
                steps.push(
                    ProofBuilderSmallStep {
                        justification: ProofBuilderSmallJustification::Definition,
                        formula: formula.duplicate(),
                    },
                );
                Some(steps)
            },
            MacroJustificationBuilder::FunctionApplication => Self::build_function_application(formula, prev, table),
        }
    }
}

/// The small steps for `left R right`, where the proof has not derived it yet and they can be
/// found, are not empty and end with a step that relates `left` to `right`.
proof fn lemma_function_application_steps_end(
    left: FormulaBuilder,
    right: FormulaBuilder,
    relation: ReadableBuilder,
    prev: Seq<ProofBuilderElement>,
    table: Map<ReadableBuilder, PropertyModel>,
)
    requires
        function_application_defined(left, right, relation, prev, table),
        !derived(prev, relation, left, right),
    ensures
        function_application_steps(left, right, relation, prev, table).len() > 0,
        function_application_steps(left, right, relation, prev, table).last().1 == left,
        function_application_steps(left, right, relation, prev, table).last().2 == right,
    decreases left,
{
}

/// Unfolding `f(x) R f(y)` by function application, where the proof has derived neither it nor
/// (for a symmetric `R`) `f(y) R f(x)` and the sides differ: unless the proof already derived
/// `x R y`, the small steps first derive `x R y`, and the last of them derives `f(x) R f(y)` by
/// the statement that makes `f` a function over `R`.
pub proof fn law_prefix_application_derives_inputs_first(
    left: FormulaBuilder,
    right: FormulaBuilder,
    relation: ReadableBuilder,
    prev: Seq<ProofBuilderElement>,
    table: Map<ReadableBuilder, PropertyModel>,
)
    requires
        function_application_defined(left, right, relation, prev, table),
        left is Prefix,
        right is Prefix,
        !derived(prev, relation, left, right),
        !(table[relation].symmetric is Some && derived(prev, relation, right, left)),
        !parsed_eq(left, right),
    ensures
        ({
            let steps = function_application_steps(left, right, relation, prev, table);
            let (f, x) = (left->Prefix_0, *left->Prefix_1);
            let y = *right->Prefix_1;
            &&& steps.len() > 0
            &&& steps.last() == (first_binding(table[f].function, relation)->0, left, right)
            &&& derived(prev, relation, x, y) || exists|j: int|
                0 <= j < steps.len() - 1 && (#[trigger] steps[j]).1 == x && steps[j].2 == y
        }),
{
    let steps = function_application_steps(left, right, relation, prev, table);
    let (f, x) = (left->Prefix_0, *left->Prefix_1);
    let y = *right->Prefix_1;
    let inner = function_application_steps(x, y, relation, prev, table);
    assert(steps == inner + seq![(first_binding(table[f].function, relation)->0, left, right)]);
    if !derived(prev, relation, x, y) {
        lemma_function_application_steps_end(x, y, relation, prev, table);
        let j = inner.len() - 1;
        assert(steps[j] == inner[j]);
    }
}

/// Unfolding `x1 f x2 R y1 f y2` by function application, where the proof has derived neither
/// it nor (for a symmetric `R`) its reverse and the sides differ: each pair of inputs not
/// derived yet is derived by an earlier small step, and the last small step derives the whole
/// by the statement that makes `f` a function over `R`.
pub proof fn law_infix_application_derives_inputs_first(
    left: FormulaBuilder,
    right: FormulaBuilder,
    relation: ReadableBuilder,
    prev: Seq<ProofBuilderElement>,
    table: Map<ReadableBuilder, PropertyModel>,
)
    requires
        function_application_defined(left, right, relation, prev, table),
        left is Infix,
        right is Infix,
        !derived(prev, relation, left, right),
        !(table[relation].symmetric is Some && derived(prev, relation, right, left)),
        !parsed_eq(left, right),
    ensures
        ({
            let steps = function_application_steps(left, right, relation, prev, table);
            let (f, x1, x2) = (left->Infix_0, *left->Infix_1, *left->Infix_2);
            let (y1, y2) = (*right->Infix_1, *right->Infix_2);
            &&& steps.len() > 0
            &&& steps.last() == (first_binding(table[f].function, relation)->0, left, right)
            &&& derived(prev, relation, x1, y1) || exists|j: int|
                0 <= j < steps.len() - 1 && (#[trigger] steps[j]).1 == x1 && steps[j].2 == y1
            &&& derived(prev, relation, x2, y2) || exists|j: int|
                0 <= j < steps.len() - 1 && (#[trigger] steps[j]).1 == x2 && steps[j].2 == y2
        }),
{
    let steps = function_application_steps(left, right, relation, prev, table);
    let (f, x1, x2) = (left->Infix_0, *left->Infix_1, *left->Infix_2);
    let (y1, y2) = (*right->Infix_1, *right->Infix_2);
    let first = function_application_steps(x1, y1, relation, prev, table);
    let second = function_application_steps(x2, y2, relation, prev, table);
    assert(steps == first + second + seq![(first_binding(table[f].function, relation)->0, left, right)]);
    if !derived(prev, relation, x1, y1) {
        lemma_function_application_steps_end(x1, y1, relation, prev, table);
        let j = first.len() - 1;
        assert(steps[j] == first[j]);
    }
    if !derived(prev, relation, x2, y2) {
        lemma_function_application_steps_end(x2, y2, relation, prev, table);
        let j = first.len() + second.len() - 1;
        assert(steps[j] == second[j - first.len()]);
    }
}

} // verus!
