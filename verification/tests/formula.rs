use ckproof::builders::directory::{DefinitionBuilderRef, SymbolBuilderRef, VariableBuilderRef};
use ckproof::deduction::directory::{DefinitionRef, SymbolRef, VariableRef};
use ckproof::deduction::language::Formula;
use ckproof::builders::errors::FormulaParsingError;
use ckproof::builders::formula::{
    search_variable, FormulaInfixBuilder, FormulaOperand, FormulaPrefixBuilder, FormulaPrimary,
    FormulaSymbolBuilder, FormulaTokens, FormulaVariableBuilder, WrittenFormula,
};
use ckproof::builders::index::BuilderIndex;
use ckproof::builders::language::{
    FormulaBuilder, ReadBuilder, ReadOperator, ReadSignature, ReadStyle, ReadableBuilder, TypeSignatureBuilder,
    TypeSignatureBuilderGround, VariableBuilder,
};

fn var(id: &str) -> WrittenFormula {
    WrittenFormula::Variable(FormulaVariableBuilder { id: id.to_owned() })
}

fn infix(operator: ReadOperator, lhs: WrittenFormula, rhs: WrittenFormula) -> WrittenFormula {
    WrittenFormula::Infix(FormulaInfixBuilder::from_op(operator, lhs, rhs))
}

fn prefix(operator: ReadOperator, inner: WrittenFormula) -> WrittenFormula {
    WrittenFormula::Prefix(FormulaPrefixBuilder { operator, inner: Box::new(inner) })
}

fn operand(id: &str) -> FormulaOperand {
    FormulaOperand { prefixes: vec![], primary: FormulaPrimary::Variable(id.to_owned()) }
}

fn tokens(first: FormulaOperand, rest: Vec<(ReadOperator, FormulaOperand)>) -> FormulaTokens {
    FormulaTokens { first, rest }
}

fn ground(id: &str) -> TypeSignatureBuilder {
    TypeSignatureBuilder::Ground(TypeSignatureBuilderGround { id: id.to_owned() })
}

fn arrow(input: TypeSignatureBuilder, output: TypeSignatureBuilder) -> TypeSignatureBuilder {
    TypeSignatureBuilder::Compound(Box::new(input), Box::new(output))
}

fn variable(id: &str, ty: &str) -> VariableBuilder {
    VariableBuilder { id: id.to_owned(), type_signature: ground(ty) }
}

#[test]
fn tighter_operator_groups_first() {
    // And binds less tightly than Or: p ∧ q ∨ r is p ∧ (q ∨ r).
    let t = tokens(operand("p"), vec![(ReadOperator::And, operand("q")), (ReadOperator::Or, operand("r"))]);
    let read = WrittenFormula::from_tokens(&t);
    assert_eq!(read, infix(ReadOperator::And, var("p"), infix(ReadOperator::Or, var("q"), var("r"))));

    let t = tokens(operand("p"), vec![(ReadOperator::Or, operand("q")), (ReadOperator::And, operand("r"))]);
    let read = WrittenFormula::from_tokens(&t);
    assert_eq!(read, infix(ReadOperator::And, infix(ReadOperator::Or, var("p"), var("q")), var("r")));
}

#[test]
fn arithmetic_groups_to_the_left() {
    let t = tokens(operand("a"), vec![(ReadOperator::Plus, operand("b")), (ReadOperator::Minus, operand("c"))]);
    let read = WrittenFormula::from_tokens(&t);
    assert_eq!(read, infix(ReadOperator::Minus, infix(ReadOperator::Plus, var("a"), var("b")), var("c")));
}

#[test]
fn logic_groups_to_the_right() {
    let t = tokens(operand("a"), vec![(ReadOperator::Implies, operand("b")), (ReadOperator::Implies, operand("c"))]);
    let read = WrittenFormula::from_tokens(&t);
    assert_eq!(read, infix(ReadOperator::Implies, var("a"), infix(ReadOperator::Implies, var("b"), var("c"))));
}

#[test]
fn addition_binds_tighter_than_multiplication() {
    let t = tokens(operand("a"), vec![(ReadOperator::Asterisk, operand("b")), (ReadOperator::Plus, operand("c"))]);
    let read = WrittenFormula::from_tokens(&t);
    assert_eq!(read, infix(ReadOperator::Asterisk, var("a"), infix(ReadOperator::Plus, var("b"), var("c"))));
}

#[test]
fn mixed_levels() {
    // a ⇔ b → c ∧ d: equivalence loosest, then implication.
    let t = tokens(
        operand("a"),
        vec![
            (ReadOperator::Equivalent, operand("b")),
            (ReadOperator::Implies, operand("c")),
            (ReadOperator::And, operand("d")),
        ],
    );
    let read = WrittenFormula::from_tokens(&t);
    let expected = infix(
        ReadOperator::Equivalent,
        var("a"),
        infix(ReadOperator::Implies, var("b"), infix(ReadOperator::And, var("c"), var("d"))),
    );
    assert_eq!(read, expected);
}

#[test]
fn prefixes_bind_tightest() {
    let negated = FormulaOperand {
        prefixes: vec![ReadOperator::Negation, ReadOperator::Negation],
        primary: FormulaPrimary::Variable("p".to_owned()),
    };
    let t = tokens(negated, vec![(ReadOperator::And, operand("q"))]);
    let read = WrittenFormula::from_tokens(&t);
    let expected = infix(
        ReadOperator::And,
        prefix(ReadOperator::Negation, prefix(ReadOperator::Negation, var("p"))),
        var("q"),
    );
    assert_eq!(read, expected);
}

#[test]
fn parentheses_keep_their_group() {
    let inner = infix(ReadOperator::And, var("a"), var("b"));
    let first = FormulaOperand { prefixes: vec![], primary: FormulaPrimary::Paren(Box::new(inner)) };
    let t = tokens(first, vec![(ReadOperator::And, operand("c"))]);
    let read = WrittenFormula::from_tokens(&t);
    let expected = infix(
        ReadOperator::And,
        WrittenFormula::Paren(Box::new(infix(ReadOperator::And, var("a"), var("b")))),
        var("c"),
    );
    assert_eq!(read, expected);
}

#[test]
fn single_operand() {
    let t = tokens(
        FormulaOperand { prefixes: vec![], primary: FormulaPrimary::Symbol("T".to_owned()) },
        vec![],
    );
    let read = WrittenFormula::from_tokens(&t);
    assert_eq!(read, WrittenFormula::Symbol(FormulaSymbolBuilder { id: "T".to_owned() }));
}

#[test]
fn climbing_stops_at_looser_operator() {
    // From the second operand, reading only operators at least as tight as Or.
    let t = tokens(operand("a"), vec![(ReadOperator::And, operand("b")), (ReadOperator::Implies, operand("c"))]);
    let (read, end) = WrittenFormula::prec_climb(&t, 1, 3);
    assert_eq!(read, var("b"));
    assert_eq!(end, 1);
}

fn logic_index() -> BuilderIndex {
    let mut index = BuilderIndex::new();
    assert_eq!(index.add_system("logic", 0), None);
    let bool_binary = arrow(ground("Bool"), arrow(ground("Bool"), ground("Bool")));
    let and = ReadBuilder { style: ReadStyle::Infix, operator: ReadOperator::And };
    assert_eq!(index.add_operator("logic", and, ReadableBuilder::Symbol(SymbolBuilderRef(3)), bool_binary), Ok(()));
    let not = ReadBuilder { style: ReadStyle::Prefix, operator: ReadOperator::Negation };
    let bool_unary = arrow(ground("Bool"), ground("Bool"));
    assert_eq!(index.add_operator("logic", not, ReadableBuilder::Symbol(SymbolBuilderRef(4)), bool_unary), Ok(()));
    index
}

#[test]
fn operators_are_found_by_reading_and_input_types() {
    let mut index = logic_index();
    let b = ground("Bool");
    let n = ground("Nat");
    let and = ReadBuilder { style: ReadStyle::Infix, operator: ReadOperator::And };
    let found = index.search_operator("logic", &ReadSignature { read: and, inputs: vec![&b, &b] });
    let (readable, ty) = found.unwrap();
    assert_eq!(readable, ReadableBuilder::Symbol(SymbolBuilderRef(3)));
    assert!(ty.same_as(&arrow(ground("Bool"), arrow(ground("Bool"), ground("Bool")))));

    assert!(index.search_operator("logic", &ReadSignature { read: and, inputs: vec![&b, &n] }).is_none());
    assert!(index.search_operator("logic", &ReadSignature { read: and, inputs: vec![&b] }).is_none());
    assert!(index.search_operator("other", &ReadSignature { read: and, inputs: vec![&b, &b] }).is_none());

    // The same reading with the same inputs is taken, whatever the output.
    let again = arrow(ground("Bool"), arrow(ground("Bool"), ground("Nat")));
    assert_eq!(
        index.add_operator("logic", and, ReadableBuilder::Symbol(SymbolBuilderRef(9)), again),
        Err(ReadableBuilder::Symbol(SymbolBuilderRef(3)))
    );
    // Other input types make another operator.
    let nat_and = arrow(ground("Nat"), arrow(ground("Nat"), ground("Nat")));
    assert_eq!(index.add_operator("logic", and, ReadableBuilder::Symbol(SymbolBuilderRef(5)), nat_and), Ok(()));
    let found = index.search_operator("logic", &ReadSignature { read: and, inputs: vec![&n, &n] });
    assert_eq!(found.unwrap().0, ReadableBuilder::Symbol(SymbolBuilderRef(5)));
}

#[test]
fn variables_are_found_by_id_last_declaration_first() {
    let vars = vec![variable("p", "Bool"), variable("q", "Bool"), variable("p", "Nat")];
    assert_eq!(search_variable(&vars, "p"), Some(2));
    assert_eq!(search_variable(&vars, "q"), Some(1));
    assert_eq!(search_variable(&vars, "r"), None);
}

#[test]
fn formula_resolves_to_symbols_and_variables() {
    let index = logic_index();
    let vars = vec![variable("p", "Bool"), variable("q", "Bool")];
    let written = infix(ReadOperator::And, prefix(ReadOperator::Negation, var("p")), var("q"));
    let (built, ty) = written.build("logic", &vars, &index).unwrap();
    let expected = FormulaBuilder::Infix(
        ReadableBuilder::Symbol(SymbolBuilderRef(3)),
        Box::new(FormulaBuilder::Prefix(
            ReadableBuilder::Symbol(SymbolBuilderRef(4)),
            Box::new(FormulaBuilder::Variable(VariableBuilderRef(0))),
        )),
        Box::new(FormulaBuilder::Variable(VariableBuilderRef(1))),
    );
    assert!(built.equals(&expected));
    assert!(ty.same_as(&ground("Bool")));

    let in_parens = WrittenFormula::Paren(Box::new(var("q")));
    let (built, ty) = in_parens.build("logic", &vars, &index).unwrap();
    assert!(built.equals(&FormulaBuilder::Variable(VariableBuilderRef(1))));
    assert!(ty.same_as(&ground("Bool")));
}

#[test]
fn unknown_variable_is_reported() {
    let index = logic_index();
    let vars = vec![variable("p", "Bool")];
    let written = infix(ReadOperator::And, var("p"), var("x"));
    assert!(matches!(written.build("logic", &vars, &index), Err(FormulaParsingError::VariableIdNotFound)));
}

#[test]
fn missing_operator_is_reported() {
    let index = logic_index();
    let vars = vec![variable("p", "Bool"), variable("n", "Nat")];
    let or = infix(ReadOperator::Or, var("p"), var("p"));
    assert!(matches!(or.build("logic", &vars, &index), Err(FormulaParsingError::OperatorNotFound)));
    // The operator exists, but not for these input types.
    let mixed = infix(ReadOperator::And, var("p"), var("n"));
    assert!(matches!(mixed.build("logic", &vars, &index), Err(FormulaParsingError::OperatorNotFound)));
    // The first failure, left to right, is the one reported.
    let both = infix(ReadOperator::Or, var("x"), var("p"));
    assert!(matches!(both.build("logic", &vars, &index), Err(FormulaParsingError::VariableIdNotFound)));
}

#[test]
fn reading_then_building() {
    let index = logic_index();
    let vars = vec![variable("p", "Bool"), variable("q", "Bool"), variable("r", "Bool")];
    let t = tokens(operand("p"), vec![(ReadOperator::And, operand("q")), (ReadOperator::And, operand("r"))]);
    let read = WrittenFormula::from_tokens(&t);
    let (built, _) = read.build("logic", &vars, &index).unwrap();
    let and = ReadableBuilder::Symbol(SymbolBuilderRef(3));
    let expected = FormulaBuilder::Infix(
        and,
        Box::new(FormulaBuilder::Variable(VariableBuilderRef(0))),
        Box::new(FormulaBuilder::Infix(
            and,
            Box::new(FormulaBuilder::Variable(VariableBuilderRef(1))),
            Box::new(FormulaBuilder::Variable(VariableBuilderRef(2))),
        )),
    );
    assert!(built.equals(&expected));
}

#[test]
fn type_signatures_compare_by_shape_and_names() {
    let f = arrow(ground("A"), arrow(ground("B"), ground("C")));
    assert!(f.same_as(&arrow(ground("A"), arrow(ground("B"), ground("C")))));
    assert!(!f.same_as(&arrow(arrow(ground("A"), ground("B")), ground("C"))));
    assert!(f.same_inputs(&arrow(ground("A"), arrow(ground("B"), ground("D")))));
    assert!(!f.same_inputs(&arrow(ground("A"), ground("C"))));
    assert!(f.applied().same_as(&arrow(ground("B"), ground("C"))));
    let a = ground("A");
    let b = ground("B");
    assert!(f.has_inputs(&vec![&a, &b]));
    assert!(!f.has_inputs(&vec![&a]));
    assert!(!f.has_inputs(&vec![&b, &a]));
}

#[test]
fn formulas_become_checkable_by_the_place_of_their_blocks() {
    let v = |k: usize| Box::new(FormulaBuilder::Variable(VariableBuilderRef(k)));
    let symbols = vec![3, 7];
    let definitions = vec![9];
    let and = FormulaBuilder::Infix(ReadableBuilder::Symbol(SymbolBuilderRef(7)), v(0), v(1));
    let expected = Formula::Application(
        Box::new(Formula::Application(
            Box::new(Formula::Symbol(SymbolRef(1))),
            Box::new(Formula::Variable(VariableRef(0))),
        )),
        Box::new(Formula::Variable(VariableRef(1))),
    );
    assert!(and.checkable(&symbols, &definitions).unwrap().equals(&expected));

    let imp = FormulaBuilder::Infix(ReadableBuilder::Definition(DefinitionBuilderRef(9)), v(0), v(1));
    let expected = Formula::Definition(
        DefinitionRef(0),
        vec![Formula::Variable(VariableRef(0)), Formula::Variable(VariableRef(1))],
    );
    assert!(imp.checkable(&symbols, &definitions).unwrap().equals(&expected));

    let unknown = FormulaBuilder::Prefix(ReadableBuilder::Symbol(SymbolBuilderRef(5)), v(0));
    assert!(unknown.checkable(&symbols, &definitions).is_none());
}
