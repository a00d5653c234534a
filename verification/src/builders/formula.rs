//! Reading a formula: the operands and binary operators of a formula, as the grammar hands them
//! over, are grouped by precedence into a tree.
use vstd::prelude::*;

use super::directory::VariableBuilderRef;
use super::errors::FormulaParsingError;
use super::index::{lemma_operator_inputs, BuilderIndex};
use super::language::{
    applied_model, binding_power, groups_left, inputs_model, signature_inputs, type_model, FormulaBuilder,
    ReadBuilder, ReadOperator, ReadSignature, ReadStyle, TypeModel, TypeSignatureBuilder, VariableBuilder,
};
use crate::str_equal;

verus! {

/// A symbol named in a written formula.
#[derive(Debug, PartialEq, Eq)]
pub struct FormulaSymbolBuilder {
    pub id: String,
}

/// A variable named in a written formula.
#[derive(Debug, PartialEq, Eq)]
pub struct FormulaVariableBuilder {
    pub id: String,
}

/// A prefix operator applied to a written formula.
#[derive(Debug, PartialEq, Eq)]
pub struct FormulaPrefixBuilder {
    pub operator: ReadOperator,
    pub inner: Box<WrittenFormula>,
}

/// A binary operator between two written formulas.
#[derive(Debug, PartialEq, Eq)]
pub struct FormulaInfixBuilder {
    pub operator: ReadOperator,
    pub lhs: Box<WrittenFormula>,
    pub rhs: Box<WrittenFormula>,
}

/// A formula as it is written, before its names are looked up.
#[derive(Debug, PartialEq, Eq)]
pub enum WrittenFormula {
    Symbol(FormulaSymbolBuilder),
    Variable(FormulaVariableBuilder),
    Paren(Box<WrittenFormula>),
    Prefix(FormulaPrefixBuilder),
    Infix(FormulaInfixBuilder),
}

impl FormulaInfixBuilder {
    pub fn from_op(operator: ReadOperator, lhs: WrittenFormula, rhs: WrittenFormula) -> (r: FormulaInfixBuilder)
        ensures
            r.operator == operator,
            *r.lhs == lhs,
            *r.rhs == rhs,
    {
        FormulaInfixBuilder { operator, lhs: Box::new(lhs), rhs: Box::new(rhs) }
    }
}

impl WrittenFormula {
    /// A copy of the formula.
    pub fn duplicate(&self) -> (r: WrittenFormula)
        ensures
            r == *self,
        decreases self,
    {
        match self {
            WrittenFormula::Symbol(s) => WrittenFormula::Symbol(FormulaSymbolBuilder { id: s.id.clone() }),
            WrittenFormula::Variable(v) => WrittenFormula::Variable(FormulaVariableBuilder { id: v.id.clone() }),
            WrittenFormula::Paren(inner) => WrittenFormula::Paren(Box::new(inner.duplicate())),
            WrittenFormula::Prefix(p) => WrittenFormula::Prefix(
                FormulaPrefixBuilder { operator: p.operator, inner: Box::new(p.inner.duplicate()) },
            ),
            WrittenFormula::Infix(i) => WrittenFormula::Infix(
                FormulaInfixBuilder::from_op(i.operator, i.lhs.duplicate(), i.rhs.duplicate()),
            ),
        }
    }
}

/// What stands between two binary operators: a name, or a formula in parentheses.
pub enum FormulaPrimary {
    Symbol(String),
    Variable(String),
    Paren(Box<WrittenFormula>),
}

/// An operand of a formula: the prefix operators written before it, and what they apply to.
pub struct FormulaOperand {
    pub prefixes: Vec<ReadOperator>,
    pub primary: FormulaPrimary,
}

/// The parts of a formula in the order they are written: its first operand, then each binary
/// operator with the operand after it.
pub struct FormulaTokens {
    pub first: FormulaOperand,
    pub rest: Vec<(ReadOperator, FormulaOperand)>,
}

/// The formula that a primary stands for.
pub open spec fn primary_formula(primary: FormulaPrimary) -> WrittenFormula {
    match primary {
        FormulaPrimary::Symbol(id) => WrittenFormula::Symbol(FormulaSymbolBuilder { id }),
        FormulaPrimary::Variable(id) => WrittenFormula::Variable(FormulaVariableBuilder { id }),
        FormulaPrimary::Paren(inner) => WrittenFormula::Paren(inner),
    }
}

/// Prefix operators applied to a formula, the first of them outermost.
pub open spec fn prefixed(prefixes: Seq<ReadOperator>, base: WrittenFormula) -> WrittenFormula
    decreases prefixes.len(),
{
    if prefixes.len() == 0 {
        base
    } else {
        WrittenFormula::Prefix(
            FormulaPrefixBuilder { operator: prefixes[0], inner: Box::new(prefixed(prefixes.drop_first(), base)) },
        )
    }
}

/// The formula that an operand stands for.
pub open spec fn operand_formula(operand: FormulaOperand) -> WrittenFormula {
    prefixed(operand.prefixes@, primary_formula(operand.primary))
}

/// The formulas of the operands of a token list, in order.
pub open spec fn token_operands(tokens: FormulaTokens) -> Seq<WrittenFormula> {
    seq![operand_formula(tokens.first)] + tokens.rest@.map_values(
        |p: (ReadOperator, FormulaOperand)| operand_formula(p.1),
    )
}

/// The binary operators of a token list, in order.
pub open spec fn token_infixes(tokens: FormulaTokens) -> Seq<ReadOperator> {
    tokens.rest@.map_values(|p: (ReadOperator, FormulaOperand)| p.0)
}

/// The operands of a formula's tree of binary operators, left to right: the formula itself where
/// it is no binary application.
pub open spec fn operands_of(formula: WrittenFormula) -> Seq<WrittenFormula>
    decreases formula,
{
    match formula {
        WrittenFormula::Infix(i) => operands_of(*i.lhs) + operands_of(*i.rhs),
        _ => seq![formula],
    }
}

/// The binary operators of a formula's tree of binary operators, left to right.
pub open spec fn infixes_of(formula: WrittenFormula) -> Seq<ReadOperator>
    decreases formula,
{
    match formula {
        WrittenFormula::Infix(i) => infixes_of(*i.lhs) + seq![i.operator] + infixes_of(*i.rhs),
        _ => seq![],
    }
}

/// Whether a formula may stand on the left of a binary operator without parentheses: it is no
/// binary application, or its operator binds tighter, or as tightly and the operator groups to
/// the left.
pub open spec fn fits_left(operator: ReadOperator, side: WrittenFormula) -> bool {
    match side {
        WrittenFormula::Infix(i) => binding_power(i.operator) > binding_power(operator) || (binding_power(
            i.operator,
        ) == binding_power(operator) && groups_left(operator)),
        _ => true,
    }
}

/// Whether a formula may stand on the right of a binary operator without parentheses: it is no
/// binary application, or its operator binds tighter, or as tightly and the operator groups to
/// the right.
pub open spec fn fits_right(operator: ReadOperator, side: WrittenFormula) -> bool {
    match side {
        WrittenFormula::Infix(i) => binding_power(i.operator) > binding_power(operator) || (binding_power(
            i.operator,
        ) == binding_power(operator) && !groups_left(operator)),
        _ => true,
    }
}

/// Whether every binary application in a formula's tree of binary operators is grouped as
/// precedence and associativity say.
pub open spec fn grouped(formula: WrittenFormula) -> bool
    decreases formula,
{
    match formula {
        WrittenFormula::Infix(i) => grouped(*i.lhs) && grouped(*i.rhs) && fits_left(i.operator, *i.lhs)
            && fits_right(i.operator, *i.rhs),
        _ => true,
    }
}

/// No operator of the list is the negation, which has no binary reading.
pub open spec fn binary_operators(operators: Seq<ReadOperator>) -> bool {
    forall|i: int| 0 <= i < operators.len() ==> operators[i] != ReadOperator::Negation
}

/// Whether a formula is the reading of a token list: its operands and binary operators are
/// those of the list, in order, grouped as precedence and associativity say.
pub open spec fn reads(tokens: FormulaTokens, formula: WrittenFormula) -> bool {
    &&& operands_of(formula) == token_operands(tokens)
    &&& infixes_of(formula) == token_infixes(tokens)
    &&& grouped(formula)
}

/// Every operator of the list binds at least as tightly as `bound`.
pub open spec fn binds_from(operators: Seq<ReadOperator>, bound: nat) -> bool {
    forall|i: int| 0 <= i < operators.len() ==> binding_power(#[trigger] operators[i]) >= bound
}

/// The least binding power that the right side of a binary operator must have.
pub open spec fn right_bound(operator: ReadOperator) -> nat {
    if groups_left(operator) {
        binding_power(operator) + 1
    } else {
        binding_power(operator)
    }
}

proof fn lemma_same_power_same_grouping(a: ReadOperator, b: ReadOperator)
    requires
        binding_power(a) == binding_power(b),
        a != ReadOperator::Negation,
        b != ReadOperator::Negation,
    ensures
        groups_left(a) == groups_left(b),
{
}

proof fn lemma_root_in_infixes(formula: WrittenFormula)
    requires
        formula is Infix,
    ensures
        infixes_of(formula)[infixes_of(*formula->Infix_0.lhs).len() as int] == formula->Infix_0.operator,
        infixes_of(*formula->Infix_0.lhs).len() < infixes_of(formula).len(),
{
}

proof fn lemma_operand_count(formula: WrittenFormula)
    ensures
        operands_of(formula).len() == infixes_of(formula).len() + 1,
    decreases formula,
{
    if let WrittenFormula::Infix(i) = formula {
        lemma_operand_count(*i.lhs);
        lemma_operand_count(*i.rhs);
    }
}

proof fn lemma_binds_from_root(formula: WrittenFormula)
    requires
        grouped(formula),
        formula is Infix,
    ensures
        binds_from(infixes_of(formula), binding_power(formula->Infix_0.operator)),
    decreases formula,
{
    let i = formula->Infix_0;
    let p = binding_power(i.operator);
    let left = infixes_of(*i.lhs);
    let right = infixes_of(*i.rhs);
    if *i.lhs is Infix {
        lemma_binds_from_root(*i.lhs);
    }
    if *i.rhs is Infix {
        lemma_binds_from_root(*i.rhs);
    }
    let all = infixes_of(formula);
    assert(all == left + seq![i.operator] + right);
    assert forall|k: int| 0 <= k < all.len() implies binding_power(#[trigger] all[k]) >= p by {
        if k < left.len() {
            assert(all[k] == left[k]);
        } else if k > left.len() {
            assert(all[k] == right[k - left.len() - 1]);
        }
    }
}

/// The operators on each side of a grouped binary application bind at least as tightly as its
/// own, and strictly more tightly on the side that it does not group towards.
proof fn lemma_sides_bind_tighter(formula: WrittenFormula)
    requires
        grouped(formula),
        formula is Infix,
    ensures
        ({
            let i = formula->Infix_0;
            let p = binding_power(i.operator);
            &&& forall|k: int|
                0 <= k < infixes_of(*i.lhs).len() ==> binding_power(#[trigger] infixes_of(*i.lhs)[k]) >= p && (
                !groups_left(i.operator) ==> binding_power(infixes_of(*i.lhs)[k]) > p)
            &&& forall|k: int|
                0 <= k < infixes_of(*i.rhs).len() ==> binding_power(#[trigger] infixes_of(*i.rhs)[k]) >= p && (
                groups_left(i.operator) ==> binding_power(infixes_of(*i.rhs)[k]) > p)
        }),
{
    let i = formula->Infix_0;
    if *i.lhs is Infix {
        lemma_binds_from_root(*i.lhs);
    }
    if *i.rhs is Infix {
        lemma_binds_from_root(*i.rhs);
    }
}

proof fn lemma_grouping_unique(a: WrittenFormula, b: WrittenFormula)
    requires
        operands_of(a) == operands_of(b),
        infixes_of(a) == infixes_of(b),
        grouped(a),
        grouped(b),
        binary_operators(infixes_of(a)),
    ensures
        a == b,
    decreases a,
{
    lemma_operand_count(a);
    lemma_operand_count(b);
    match (a, b) {
        (WrittenFormula::Infix(x), WrittenFormula::Infix(y)) => {
            let ops = infixes_of(a);
            let i = infixes_of(*x.lhs).len() as int;
            let j = infixes_of(*y.lhs).len() as int;
            assert(ops == infixes_of(*x.lhs) + seq![x.operator] + infixes_of(*x.rhs));
            assert(ops == infixes_of(*y.lhs) + seq![y.operator] + infixes_of(*y.rhs));
            lemma_sides_bind_tighter(a);
            lemma_sides_bind_tighter(b);
            assert(ops[i] == x.operator);
            assert(ops[j] == y.operator);
            if i < j {
                assert(ops[j] == infixes_of(*x.rhs)[j - i - 1]);
                assert(ops[i] == infixes_of(*y.lhs)[i]);
                lemma_same_power_same_grouping(x.operator, y.operator);
                assert(false);
            } else if j < i {
                assert(ops[i] == infixes_of(*y.rhs)[i - j - 1]);
                assert(ops[j] == infixes_of(*x.lhs)[j]);
                lemma_same_power_same_grouping(x.operator, y.operator);
                assert(false);
            }
            lemma_operand_count(*x.lhs);
            lemma_operand_count(*y.lhs);
            let operands = operands_of(a);
            assert(operands == operands_of(*x.lhs) + operands_of(*x.rhs));
            assert(operands == operands_of(*y.lhs) + operands_of(*y.rhs));
            assert(operands_of(*x.lhs) =~= operands.subrange(0, i + 1));
            assert(operands_of(*y.lhs) =~= operands.subrange(0, i + 1));
            assert(operands_of(*x.rhs) =~= operands.subrange(i + 1, operands.len() as int));
            assert(operands_of(*y.rhs) =~= operands.subrange(i + 1, operands.len() as int));
            assert(infixes_of(*x.lhs) =~= ops.subrange(0, i));
            assert(infixes_of(*y.lhs) =~= ops.subrange(0, i));
            assert(infixes_of(*x.rhs) =~= ops.subrange(i + 1, ops.len() as int));
            assert(infixes_of(*y.rhs) =~= ops.subrange(i + 1, ops.len() as int));
            lemma_grouping_unique(*x.lhs, *y.lhs);
            lemma_grouping_unique(*x.rhs, *y.rhs);
        },
        (WrittenFormula::Infix(_), _) => {},
        (_, WrittenFormula::Infix(_)) => {},
        _ => {
            assert(operands_of(a)[0] == a);
            assert(operands_of(b)[0] == b);
        },
    }
}

/// A list of tokens has one reading: two formulas that both read it are the same formula.
pub proof fn law_reading_is_unique(tokens: FormulaTokens, a: WrittenFormula, b: WrittenFormula)
    requires
        binary_operators(token_infixes(tokens)),
        reads(tokens, a),
        reads(tokens, b),
    ensures
        a == b,
{
    lemma_grouping_unique(a, b);
}

/// An operand never is a binary application.
proof fn lemma_operand_not_infix(operand: FormulaOperand)
    ensures
        !(operand_formula(operand) is Infix),
        operands_of(operand_formula(operand)) == seq![operand_formula(operand)],
        infixes_of(operand_formula(operand)) == Seq::<ReadOperator>::empty(),
        grouped(operand_formula(operand)),
{
}

/// The formula with `operator` between `lhs` and `rhs`.
pub open spec fn infix(operator: ReadOperator, lhs: WrittenFormula, rhs: WrittenFormula) -> WrittenFormula {
    WrittenFormula::Infix(FormulaInfixBuilder { operator, lhs: Box::new(lhs), rhs: Box::new(rhs) })
}

/// The operands and operators of three operands joined by two binary operators.
proof fn lemma_three_operands(tokens: FormulaTokens)
    requires
        tokens.rest@.len() == 2,
    ensures
        token_operands(tokens) == seq![
            operand_formula(tokens.first),
            operand_formula(tokens.rest@[0].1),
            operand_formula(tokens.rest@[1].1),
        ],
        token_infixes(tokens) == seq![tokens.rest@[0].0, tokens.rest@[1].0],
{
    assert(token_operands(tokens) =~= seq![
        operand_formula(tokens.first),
        operand_formula(tokens.rest@[0].1),
        operand_formula(tokens.rest@[1].1),
    ]);
    assert(token_infixes(tokens) =~= seq![tokens.rest@[0].0, tokens.rest@[1].0]);
}

/// The arithmetic operators (multiplication, division, addition, subtraction) group to the left:
/// `a op1 b op2 c`, with `op1` arithmetic and `op2` binding as tightly, reads as
/// `(a op1 b) op2 c`; so `a / b / c` reads as `(a / b) / c` and `a - b + c` as `(a - b) + c`.
pub proof fn law_arithmetic_groups_left(tokens: FormulaTokens, formula: WrittenFormula)
    requires
        tokens.rest@.len() == 2,
        tokens.rest@[0].0 == ReadOperator::Asterisk || tokens.rest@[0].0 == ReadOperator::Slash
            || tokens.rest@[0].0 == ReadOperator::Plus || tokens.rest@[0].0 == ReadOperator::Minus,
        tokens.rest@[1].0 != ReadOperator::Negation,
        binding_power(tokens.rest@[1].0) == binding_power(tokens.rest@[0].0),
        reads(tokens, formula),
    ensures
        formula == infix(
            tokens.rest@[1].0,
            infix(tokens.rest@[0].0, operand_formula(tokens.first), operand_formula(tokens.rest@[0].1)),
            operand_formula(tokens.rest@[1].1),
        ),
{
    let a = operand_formula(tokens.first);
    let b = operand_formula(tokens.rest@[0].1);
    let c = operand_formula(tokens.rest@[1].1);
    let inner = infix(tokens.rest@[0].0, a, b);
    let left = infix(tokens.rest@[1].0, inner, c);
    lemma_operand_not_infix(tokens.first);
    lemma_operand_not_infix(tokens.rest@[0].1);
    lemma_operand_not_infix(tokens.rest@[1].1);
    lemma_three_operands(tokens);
    assert(operands_of(inner) =~= seq![a, b]);
    assert(operands_of(left) =~= seq![a, b, c]);
    assert(infixes_of(inner) =~= seq![tokens.rest@[0].0]);
    assert(infixes_of(left) =~= seq![tokens.rest@[0].0, tokens.rest@[1].0]);
    assert(grouped(inner));
    assert(fits_left(tokens.rest@[1].0, inner));
    assert(grouped(left));
    assert(binary_operators(token_infixes(tokens)));
    law_reading_is_unique(tokens, formula, left);
}

/// The logical operators (equivalence, implication, conjunction, disjunction) group to the
/// right: `a op1 b op2 c`, with `op1` logical and `op2` binding as tightly, reads as
/// `a op1 (b op2 c)`; so a chain of implications reads from the right.
pub proof fn law_logic_groups_right(tokens: FormulaTokens, formula: WrittenFormula)
    requires
        tokens.rest@.len() == 2,
        tokens.rest@[0].0 == ReadOperator::Equivalent || tokens.rest@[0].0 == ReadOperator::Implies
            || tokens.rest@[0].0 == ReadOperator::And || tokens.rest@[0].0 == ReadOperator::Or,
        tokens.rest@[1].0 != ReadOperator::Negation,
        binding_power(tokens.rest@[1].0) == binding_power(tokens.rest@[0].0),
        reads(tokens, formula),
    ensures
        formula == infix(
            tokens.rest@[0].0,
            operand_formula(tokens.first),
            infix(tokens.rest@[1].0, operand_formula(tokens.rest@[0].1), operand_formula(tokens.rest@[1].1)),
        ),
{
    let a = operand_formula(tokens.first);
    let b = operand_formula(tokens.rest@[0].1);
    let c = operand_formula(tokens.rest@[1].1);
    let inner = infix(tokens.rest@[1].0, b, c);
    let right = infix(tokens.rest@[0].0, a, inner);
    lemma_operand_not_infix(tokens.first);
    lemma_operand_not_infix(tokens.rest@[0].1);
    lemma_operand_not_infix(tokens.rest@[1].1);
    lemma_three_operands(tokens);
    assert(operands_of(inner) =~= seq![b, c]);
    assert(operands_of(right) =~= seq![a, b, c]);
    assert(infixes_of(inner) =~= seq![tokens.rest@[1].0]);
    assert(infixes_of(right) =~= seq![tokens.rest@[0].0, tokens.rest@[1].0]);
    assert(grouped(inner));
    assert(fits_right(tokens.rest@[0].0, inner));
    assert(grouped(right));
    assert(binary_operators(token_infixes(tokens)));
    law_reading_is_unique(tokens, formula, right);
}

/// Of two binary operators between three operands, the one that binds tighter is applied
/// first: `a op1 b op2 c` reads as `a op1 (b op2 c)` where `op2` binds tighter, and as
/// `(a op1 b) op2 c` where `op1` does.
pub proof fn law_tighter_operator_applies_first(tokens: FormulaTokens, formula: WrittenFormula)
    requires
        tokens.rest@.len() == 2,
        binary_operators(token_infixes(tokens)),
        binding_power(tokens.rest@[0].0) != binding_power(tokens.rest@[1].0),
        reads(tokens, formula),
    ensures
        binding_power(tokens.rest@[1].0) > binding_power(tokens.rest@[0].0) ==> formula == infix(
            tokens.rest@[0].0,
            operand_formula(tokens.first),
            infix(tokens.rest@[1].0, operand_formula(tokens.rest@[0].1), operand_formula(tokens.rest@[1].1)),
        ),
        binding_power(tokens.rest@[0].0) > binding_power(tokens.rest@[1].0) ==> formula == infix(
            tokens.rest@[1].0,
            infix(tokens.rest@[0].0, operand_formula(tokens.first), operand_formula(tokens.rest@[0].1)),
            operand_formula(tokens.rest@[1].1),
        ),
{
    let (op1, op2) = (tokens.rest@[0].0, tokens.rest@[1].0);
    let a = operand_formula(tokens.first);
    let b = operand_formula(tokens.rest@[0].1);
    let c = operand_formula(tokens.rest@[1].1);
    lemma_operand_not_infix(tokens.first);
    lemma_operand_not_infix(tokens.rest@[0].1);
    lemma_operand_not_infix(tokens.rest@[1].1);
    lemma_three_operands(tokens);
    assert(op1 == token_infixes(tokens)[0] && op2 == token_infixes(tokens)[1]);
    if binding_power(op2) > binding_power(op1) {
        let inner = infix(op2, b, c);
        let whole = infix(op1, a, inner);
        assert(operands_of(inner) =~= seq![b, c]);
        assert(operands_of(whole) =~= seq![a, b, c]);
        assert(infixes_of(inner) =~= seq![op2]);
        assert(infixes_of(whole) =~= seq![op1, op2]);
        assert(grouped(inner));
        assert(fits_right(op1, inner));
        assert(grouped(whole));
        law_reading_is_unique(tokens, formula, whole);
    } else {
        let inner = infix(op1, a, b);
        let whole = infix(op2, inner, c);
        assert(operands_of(inner) =~= seq![a, b]);
        assert(operands_of(whole) =~= seq![a, b, c]);
        assert(infixes_of(inner) =~= seq![op1]);
        assert(infixes_of(whole) =~= seq![op1, op2]);
        assert(grouped(inner));
        assert(fits_left(op2, inner));
        assert(grouped(whole));
        law_reading_is_unique(tokens, formula, whole);
    }
}

impl FormulaOperand {
    /// The formula that the operand stands for: its prefix operators, the first outermost,
    /// applied to its primary.
    pub fn to_formula(&self) -> (r: WrittenFormula)
        ensures
            r == operand_formula(*self),
    {
        let mut formula = match &self.primary {
            FormulaPrimary::Symbol(id) => WrittenFormula::Symbol(FormulaSymbolBuilder { id: id.clone() }),
            FormulaPrimary::Variable(id) => WrittenFormula::Variable(FormulaVariableBuilder { id: id.clone() }),
            FormulaPrimary::Paren(inner) => WrittenFormula::Paren(Box::new(inner.duplicate())),
        };
        let ghost base = formula;
        let mut i = self.prefixes.len();
        while i > 0
            invariant
                i <= self.prefixes@.len(),
                base == primary_formula(self.primary),
                formula == prefixed(self.prefixes@.subrange(i as int, self.prefixes@.len() as int), base),
            decreases i,
        {
            i = i - 1;
            let ghost tail = self.prefixes@.subrange(i + 1, self.prefixes@.len() as int);
            assert(self.prefixes@.subrange(i as int, self.prefixes@.len() as int).drop_first() =~= tail);
            formula = WrittenFormula::Prefix(FormulaPrefixBuilder { operator: self.prefixes[i], inner: Box::new(formula) });
        }
        assert(self.prefixes@.subrange(0, self.prefixes@.len() as int) =~= self.prefixes@);
        formula
    }
}

impl FormulaTokens {
    /// The formula of the operand at a position.
    fn operand(&self, pos: usize) -> (r: WrittenFormula)
        requires
            pos <= self.rest@.len(),
        ensures
            r == token_operands(*self)[pos as int],
    {
        if pos == 0 {
            self.first.to_formula()
        } else {
            self.rest[pos - 1].1.to_formula()
        }
    }
}

impl WrittenFormula {
    /// Reads the operands from position `pos` on, and the binary operators between them as long
    /// as they bind at least as tightly as `curr_prec`: precedence climbing. Returns the formula
    /// and the position of its last operand.
    pub fn prec_climb(tokens: &FormulaTokens, pos: usize, curr_prec: usize) -> (r: (WrittenFormula, usize))
        requires
            pos <= tokens.rest@.len(),
            binary_operators(token_infixes(*tokens)),
        ensures
            pos <= r.1 <= tokens.rest@.len(),
            operands_of(r.0) == token_operands(*tokens).subrange(pos as int, r.1 + 1),
            infixes_of(r.0) == token_infixes(*tokens).subrange(pos as int, r.1 as int),
            grouped(r.0),
            binds_from(infixes_of(r.0), curr_prec as nat),
            r.1 == tokens.rest@.len() || binding_power(token_infixes(*tokens)[r.1 as int]) < curr_prec,
        decreases tokens.rest@.len() - pos,
    {
        let ghost operands = token_operands(*tokens);
        let ghost infixes = token_infixes(*tokens);
        let mut primary = tokens.operand(pos);
        let mut k = pos;
        assert(operands.subrange(pos as int, k + 1) =~= seq![operands[pos as int]]);
        assert(infixes.subrange(pos as int, k as int) =~= Seq::<ReadOperator>::empty());
        loop
            invariant
                pos <= k <= tokens.rest@.len(),
                operands == token_operands(*tokens),
                infixes == token_infixes(*tokens),
                binary_operators(infixes),
                operands_of(primary) == operands.subrange(pos as int, k + 1),
                infixes_of(primary) == infixes.subrange(pos as int, k as int),
                grouped(primary),
                binds_from(infixes_of(primary), curr_prec as nat),
                primary is Infix ==> (k == tokens.rest@.len() || binding_power(infixes[k as int]) < right_bound(
                    primary->Infix_0.operator,
                )),
            ensures
                pos <= k <= tokens.rest@.len(),
                operands_of(primary) == operands.subrange(pos as int, k + 1),
                infixes_of(primary) == infixes.subrange(pos as int, k as int),
                grouped(primary),
                binds_from(infixes_of(primary), curr_prec as nat),
                k == tokens.rest@.len() || binding_power(infixes[k as int]) < curr_prec,
            decreases tokens.rest@.len() - k,
        {
            if k >= tokens.rest.len() {
                break;
            }
            let infix = tokens.rest[k].0;
            assert(infix == infixes[k as int]);
            let precedence = infix.precedence();
            if precedence < curr_prec {
                break;
            }
            let next_prec = if infix.is_left_associative() {
                precedence + 1
            } else {
                precedence
            };
            let (rhs, end) = WrittenFormula::prec_climb(tokens, k + 1, next_prec);
            proof {
                if primary is Infix {
                    let q = primary->Infix_0.operator;
                    lemma_root_in_infixes(primary);
                    let j = infixes_of(*primary->Infix_0.lhs).len() as int;
                    assert(infixes_of(primary)[j] == infixes[pos + j]);
                    if binding_power(infix) == binding_power(q) {
                        lemma_same_power_same_grouping(infix, q);
                    }
                }
                if rhs is Infix {
                    lemma_root_in_infixes(rhs);
                    let j = infixes_of(*rhs->Infix_0.lhs).len() as int;
                    assert(binding_power(infixes_of(rhs)[j]) >= next_prec);
                }
                assert(operands.subrange(pos as int, k + 1) + operands.subrange(k + 1, end + 1)
                    =~= operands.subrange(pos as int, end + 1));
                assert(infixes.subrange(pos as int, k as int) + seq![infix] + infixes.subrange(k + 1, end as int)
                    =~= infixes.subrange(pos as int, end as int));
            }
            let ghost old_primary = primary;
            primary = WrittenFormula::Infix(FormulaInfixBuilder::from_op(infix, primary, rhs));
            proof {
                let all = infixes_of(primary);
                assert(all == infixes_of(old_primary) + seq![infix] + infixes_of(rhs));
                assert forall|i: int| 0 <= i < all.len() implies binding_power(#[trigger] all[i]) >= curr_prec by {
                    if i < infixes_of(old_primary).len() {
                        assert(all[i] == infixes_of(old_primary)[i]);
                    } else if i > infixes_of(old_primary).len() {
                        assert(all[i] == infixes_of(rhs)[i - infixes_of(old_primary).len() - 1]);
                    }
                }
            }
            k = end;
        }
        (primary, k)
    }

    /// Reads a formula from its tokens.
    pub fn from_tokens(tokens: &FormulaTokens) -> (r: WrittenFormula)
        requires
            binary_operators(token_infixes(*tokens)),
        ensures
            reads(*tokens, r),
    {
        let (formula, end) = WrittenFormula::prec_climb(tokens, 0, 0);
        assert(token_operands(*tokens).subrange(0, end + 1) =~= token_operands(*tokens));
        assert(token_infixes(*tokens).subrange(0, end as int) =~= token_infixes(*tokens));
        formula
    }
}

/// The position of the variable that an id names among the variables of a block: the last that
/// is declared with it.
pub open spec fn variable_position(vars: Seq<VariableBuilder>, id: Seq<char>) -> Option<int>
    decreases vars.len(),
{
    if vars.len() == 0 {
        None
    } else if vars.last().id@ == id {
        Some(vars.len() - 1)
    } else {
        variable_position(vars.drop_last(), id)
    }
}

proof fn lemma_variable_position(vars: Seq<VariableBuilder>, id: Seq<char>)
    ensures
        variable_position(vars, id) matches Some(k) ==> 0 <= k < vars.len() && vars[k].id@ == id,
    decreases vars.len(),
{
    if vars.len() > 0 {
        lemma_variable_position(vars.drop_last(), id);
    }
}

/// The position of the variable that an id names among the variables of a block, if any.
pub fn search_variable(vars: &Vec<VariableBuilder>, id: &str) -> (r: Option<usize>)
    ensures
        r matches Some(k) ==> variable_position(vars@, id@) == Some(k as int),
        r is None ==> variable_position(vars@, id@) is None,
        r matches Some(k) ==> k < vars@.len() && vars@[k as int].id@ == id@,
{
    proof {
        lemma_variable_position(vars@, id@);
    }
    let mut i = vars.len();
    assert(vars@.take(i as int) =~= vars@);
    while i > 0
        invariant
            i <= vars@.len(),
            variable_position(vars@, id@) == variable_position(vars@.take(i as int), id@),
        decreases i,
    {
        assert(vars@.take(i as int).drop_last() =~= vars@.take(i - 1));
        if str_equal(vars[i - 1].id.as_str(), id) {
            return Some(i - 1);
        }
        i = i - 1;
    }
    None
}

/// Whether a written formula names no symbol on its own: formulas are built from variables and
/// operators.
pub open spec fn names_no_symbol(formula: WrittenFormula) -> bool
    decreases formula,
{
    match formula {
        WrittenFormula::Symbol(_) => false,
        WrittenFormula::Variable(_) => true,
        WrittenFormula::Paren(inner) => names_no_symbol(*inner),
        WrittenFormula::Prefix(p) => names_no_symbol(*p.inner),
        WrittenFormula::Infix(i) => names_no_symbol(*i.lhs) && names_no_symbol(*i.rhs),
    }
}

/// What a written formula resolves to in a system, with the variables of its block: the formula
/// with its variables and operators looked up, and its type; or the first name, left to right
/// and inside out, that cannot be looked up. A variable is looked up by its id, an operator by how
/// it is read and the types of its inputs.
pub open spec fn resolution(
    formula: WrittenFormula,
    system_id: Seq<char>,
    vars: Seq<VariableBuilder>,
    index: BuilderIndex,
) -> Result<(FormulaBuilder, TypeModel), FormulaParsingError>
    decreases formula,
{
    match formula {
        WrittenFormula::Symbol(_) => Err(FormulaParsingError::OperatorNotFound),
        WrittenFormula::Variable(v) => match variable_position(vars, v.id@) {
            Some(k) => Ok((FormulaBuilder::Variable(VariableBuilderRef(k as usize)), type_model(vars[k].type_signature))),
            None => Err(FormulaParsingError::VariableIdNotFound),
        },
        WrittenFormula::Paren(inner) => resolution(*inner, system_id, vars, index),
        WrittenFormula::Prefix(p) => match resolution(*p.inner, system_id, vars, index) {
            Err(e) => Err(e),
            Ok(inner) => match index.operator(
                system_id,
                ReadBuilder { style: ReadStyle::Prefix, operator: p.operator },
                seq![inner.1],
            ) {
                Some(found) => Ok((FormulaBuilder::Prefix(found.0, Box::new(inner.0)), applied_model(found.1))),
                None => Err(FormulaParsingError::OperatorNotFound),
            },
        },
        WrittenFormula::Infix(i) => match resolution(*i.lhs, system_id, vars, index) {
            Err(e) => Err(e),
            Ok(lhs) => match resolution(*i.rhs, system_id, vars, index) {
                Err(e) => Err(e),
                Ok(rhs) => match index.operator(
                    system_id,
                    ReadBuilder { style: ReadStyle::Infix, operator: i.operator },
                    seq![lhs.1, rhs.1],
                ) {
                    Some(found) => Ok(
                        (
                            FormulaBuilder::Infix(found.0, Box::new(lhs.0), Box::new(rhs.0)),
                            applied_model(applied_model(found.1)),
                        ),
                    ),
                    None => Err(FormulaParsingError::OperatorNotFound),
                },
            },
        },
    }
}

proof fn lemma_ground_has_no_inputs(signature: TypeSignatureBuilder)
    requires
        inputs_model(type_model(signature)).len() > 0,
    ensures
        signature is Compound,
{
}

impl WrittenFormula {
    /// Looks up the variables and operators of a formula in a system, with the variables of its
    /// block; gives the formula and its type, or the first failure.
    pub fn build<'a>(&self, system_id: &str, vars: &'a Vec<VariableBuilder>, index: &'a BuilderIndex) -> (r: Result<
        (FormulaBuilder, &'a TypeSignatureBuilder),
        FormulaParsingError,
    >)
        requires
            names_no_symbol(*self),
        ensures
            match resolution(*self, system_id@, vars@, *index) {
                Ok(found) => r matches Ok(p) && p.0 == found.0 && type_model(*p.1) == found.1,
                Err(e) => r matches Err(f) && f == e,
            },
        decreases self,
    {
        match self {
            WrittenFormula::Symbol(_) => Err(FormulaParsingError::OperatorNotFound),
            WrittenFormula::Variable(v) => match search_variable(vars, v.id.as_str()) {
                Some(k) => {
                    let ty = &vars[k].type_signature;
                    Ok((FormulaBuilder::Variable(VariableBuilderRef(k)), ty))
                },
                None => Err(FormulaParsingError::VariableIdNotFound),
            },
            WrittenFormula::Paren(inner) => inner.build(system_id, vars, index),
            WrittenFormula::Prefix(p) => {
                let (inner, inner_type) = match p.inner.build(system_id, vars, index) {
                    Ok(built) => built,
                    Err(e) => return Err(e),
                };
                let mut inputs: Vec<&TypeSignatureBuilder> = Vec::new();
                inputs.push(inner_type);
                let read = ReadBuilder { style: ReadStyle::Prefix, operator: p.operator };
                let signature = ReadSignature { read, inputs };
                assert(signature_inputs(signature) =~= seq![type_model(*inner_type)]);
                match index.search_operator(system_id, &signature) {
                    Some((readable, ty)) => {
                        proof {
                            lemma_operator_inputs(index.operators@, system_id@, read, signature_inputs(signature));
                            lemma_ground_has_no_inputs(*ty);
                        }
                        Ok((FormulaBuilder::Prefix(readable, Box::new(inner)), ty.applied()))
                    },
                    None => Err(FormulaParsingError::OperatorNotFound),
                }
            },
            WrittenFormula::Infix(i) => {
                let (lhs, lhs_type) = match i.lhs.build(system_id, vars, index) {
                    Ok(built) => built,
                    Err(e) => return Err(e),
                };
                let (rhs, rhs_type) = match i.rhs.build(system_id, vars, index) {
                    Ok(built) => built,
                    Err(e) => return Err(e),
                };
                let mut inputs: Vec<&TypeSignatureBuilder> = Vec::new();
                inputs.push(lhs_type);
                inputs.push(rhs_type);
                let read = ReadBuilder { style: ReadStyle::Infix, operator: i.operator };
                let signature = ReadSignature { read, inputs };
                assert(signature_inputs(signature) =~= seq![type_model(*lhs_type), type_model(*rhs_type)]);
                match index.search_operator(system_id, &signature) {
                    Some((readable, ty)) => {
                        proof {
                            lemma_operator_inputs(index.operators@, system_id@, read, signature_inputs(signature));
                            lemma_ground_has_no_inputs(*ty);
                        }
                        let once = ty.applied();
                        proof {
                            assert(inputs_model(type_model(*ty)).drop_first() =~= inputs_model(type_model(*once)));
                            lemma_ground_has_no_inputs(*once);
                        }
                        Ok((FormulaBuilder::Infix(readable, Box::new(lhs), Box::new(rhs)), once.applied()))
                    },
                    None => Err(FormulaParsingError::OperatorNotFound),
                }
            },
        }
    }
}

} // verus!
