use vstd::prelude::*;

use super::errors::{
    DefinitionParsingError, ParagraphParsingError, SymbolParsingError, TextParsingError, TypeParsingError,
    TypeSignatureParsingError, VariableParsingError,
};
use super::directory::{
    AxiomBuilderRef, DefinitionBuilderRef, SymbolBuilderRef, TheoremBuilderRef, VariableBuilderRef,
};
use super::errors::ReadableParsingError;
use super::index::{BuilderIndex, SystemChildKind};
use super::text::{
    math_error, no_tag_references, paragraph_errors, paragraph_ok, text_check, text_no_tag_references, MathBuilder,
    ParagraphBuilder, TextBuilder,
};
use crate::deduction::errors::append_mapped;
use crate::document::language::{Display, DisplayStyle};

verus! {

/// Where the sign of an operator stands when it is read.
#[derive(Clone, Copy, PartialEq, Eq, Debug, Structural)]
pub enum ReadStyle {
    Prefix,
    Infix,
}

impl ReadStyle {
    pub fn to_display(&self) -> (r: DisplayStyle)
        ensures
            r == (match *self {
                ReadStyle::Prefix => DisplayStyle::Prefix,
                ReadStyle::Infix => DisplayStyle::Infix,
            }),
    {
        match self {
            ReadStyle::Prefix => DisplayStyle::Prefix,
            ReadStyle::Infix => DisplayStyle::Infix,
        }
    }
}

/// An operator that a formula may be read with.
#[derive(Clone, Copy, PartialEq, Eq, Debug, Structural)]
pub enum ReadOperator {
    Negation,
    Implies,
    Equivalent,
    And,
    Or,

    Asterisk,
    Slash,
    Plus,
    Minus,
}

/// The sign of an operator as it is displayed.
pub open spec fn read_operator_sign(operator: ReadOperator) -> Seq<char> {
    match operator {
        ReadOperator::Negation => "\u{00AC}"@,
        ReadOperator::Implies => "\u{2192}"@,
        ReadOperator::Equivalent => "\u{21D4}"@,
        ReadOperator::And => "\u{2227}"@,
        ReadOperator::Or => "\u{2228}"@,
        ReadOperator::Asterisk => "\u{22C5}"@,
        ReadOperator::Slash => "/"@,
        ReadOperator::Plus => "+"@,
        ReadOperator::Minus => "-"@,
    }
}

/// How tightly a binary operator binds: equivalence loosest, then implication, conjunction,
/// disjunction, multiplication and division, and addition and subtraction.
pub open spec fn binding_power(operator: ReadOperator) -> nat {
    match operator {
        ReadOperator::Equivalent => 0,
        ReadOperator::Implies => 1,
        ReadOperator::And => 2,
        ReadOperator::Or => 3,
        ReadOperator::Asterisk | ReadOperator::Slash => 4,
        _ => 5,
    }
}

/// Whether a binary operator groups to the left: the arithmetic ones do, the logical ones group
/// to the right.
pub open spec fn groups_left(operator: ReadOperator) -> bool {
    operator == ReadOperator::Asterisk || operator == ReadOperator::Slash || operator == ReadOperator::Plus
        || operator == ReadOperator::Minus
}

impl ReadOperator {
    /// How tightly a binary operator binds.
    pub fn precedence(self) -> (r: usize)
        requires
            self != ReadOperator::Negation,
        ensures
            r == binding_power(self),
    {
        match self {
            ReadOperator::Equivalent => 0,
            ReadOperator::Implies => 1,
            ReadOperator::And => 2,
            ReadOperator::Or => 3,
            ReadOperator::Asterisk | ReadOperator::Slash => 4,
            _ => 5,
        }
    }

    /// Whether a binary operator groups to the left.
    pub fn is_left_associative(self) -> (r: bool)
        requires
            self != ReadOperator::Negation,
        ensures
            r == groups_left(self),
    {
        match self {
            ReadOperator::Asterisk | ReadOperator::Slash | ReadOperator::Plus | ReadOperator::Minus => true,
            _ => false,
        }
    }

    pub fn to_display(&self) -> (r: &str)
        ensures
            r@ == read_operator_sign(*self),
    {
        match self {
            ReadOperator::Negation => "\u{00AC}",
            ReadOperator::Implies => "\u{2192}",
            ReadOperator::Equivalent => "\u{21D4}",
            ReadOperator::And => "\u{2227}",
            ReadOperator::Or => "\u{2228}",
            ReadOperator::Asterisk => "\u{22C5}",
            ReadOperator::Slash => "/",
            ReadOperator::Plus => "+",
            ReadOperator::Minus => "-",
        }
    }
}

/// How a symbol or definition is read: a style and an operator.
#[derive(Clone, Copy, PartialEq, Eq, Debug, Structural)]
pub struct ReadBuilder {
    pub style: ReadStyle,
    pub operator: ReadOperator,
}

impl ReadBuilder {
    /// The notation that a reading is displayed with: the same style and the operator's sign.
    pub fn to_display(&self) -> (r: Display)
        ensures
            r.style == (match self.style {
                ReadStyle::Prefix => DisplayStyle::Prefix,
                ReadStyle::Infix => DisplayStyle::Infix,
            }),
            r.id@ == read_operator_sign(self.operator),
    {
        let style = self.style.to_display();
        let operator = self.operator.to_display().to_owned();
        Display::new(style, operator)
    }
}

/// A type named in a signature, by its id among the children of the system.
pub struct TypeSignatureBuilderGround {
    pub id: String,
}

/// A type signature as it is written.
pub enum TypeSignatureBuilder {
    Ground(TypeSignatureBuilderGround),
    Compound(Box<TypeSignatureBuilder>, Box<TypeSignatureBuilder>),
}

/// A type signature as a value: named types, and functions from one type to another.
pub enum TypeModel {
    Ground(Seq<char>),
    Compound(Box<TypeModel>, Box<TypeModel>),
}

/// What a type signature stands for.
pub open spec fn type_model(signature: TypeSignatureBuilder) -> TypeModel
    decreases signature,
{
    match signature {
        TypeSignatureBuilder::Ground(ground) => TypeModel::Ground(ground.id@),
        TypeSignatureBuilder::Compound(input, output) => TypeModel::Compound(
            Box::new(type_model(*input)),
            Box::new(type_model(*output)),
        ),
    }
}

/// The inputs of a function type, in order: none for a named type.
pub open spec fn inputs_model(model: TypeModel) -> Seq<TypeModel>
    decreases model,
{
    match model {
        TypeModel::Ground(_) => seq![],
        TypeModel::Compound(input, output) => seq![*input] + inputs_model(*output),
    }
}

/// The function type from the given inputs, in order, to a type.
pub open spec fn extended_model(base: TypeModel, inputs: Seq<TypeModel>) -> TypeModel
    decreases inputs.len(),
{
    if inputs.len() == 0 {
        base
    } else {
        TypeModel::Compound(Box::new(inputs[0]), Box::new(extended_model(base, inputs.drop_first())))
    }
}

/// What a function type gives once it is applied to an input.
pub open spec fn applied_model(model: TypeModel) -> TypeModel {
    match model {
        TypeModel::Compound(_, output) => *output,
        _ => model,
    }
}

impl TypeSignatureBuilder {
    /// Whether two signatures name the same types in the same shape.
    pub fn same_as(&self, other: &TypeSignatureBuilder) -> (r: bool)
        ensures
            r == (type_model(*self) == type_model(*other)),
        decreases self,
    {
        match (self, other) {
            (TypeSignatureBuilder::Ground(a), TypeSignatureBuilder::Ground(b)) => crate::str_equal(
                a.id.as_str(),
                b.id.as_str(),
            ),
            (TypeSignatureBuilder::Compound(a_in, a_out), TypeSignatureBuilder::Compound(b_in, b_out)) => {
                a_in.same_as(b_in) && a_out.same_as(b_out)
            },
            _ => false,
        }
    }

    /// A copy of the signature.
    pub fn duplicate(&self) -> (r: TypeSignatureBuilder)
        ensures
            type_model(r) == type_model(*self),
        decreases self,
    {
        match self {
            TypeSignatureBuilder::Ground(g) => TypeSignatureBuilder::Ground(TypeSignatureBuilderGround { id: g.id.clone() }),
            TypeSignatureBuilder::Compound(input, output) => TypeSignatureBuilder::Compound(
                Box::new(input.duplicate()),
                Box::new(output.duplicate()),
            ),
        }
    }

    /// The inputs of a function type, in order.
    pub fn inputs(&self) -> (r: Vec<&TypeSignatureBuilder>)
        ensures
            r@.map_values(|t: &TypeSignatureBuilder| type_model(*t)) == inputs_model(type_model(*self)),
    {
        let mut inputs: Vec<&TypeSignatureBuilder> = Vec::new();
        let mut current = self;
        loop
            invariant
                inputs_model(type_model(*self)) == inputs@.map_values(|t: &TypeSignatureBuilder| type_model(*t))
                    + inputs_model(type_model(*current)),
            ensures
                *current is Ground,
                inputs_model(type_model(*self)) == inputs@.map_values(|t: &TypeSignatureBuilder| type_model(*t))
                    + inputs_model(type_model(*current)),
            decreases *current,
        {
            match current {
                TypeSignatureBuilder::Compound(input, output) => {
                    let ghost before = inputs@;
                    inputs.push(input);
                    proof {
                        assert(inputs@.map_values(|t: &TypeSignatureBuilder| type_model(*t)) =~= before.map_values(
                            |t: &TypeSignatureBuilder| type_model(*t),
                        ).push(type_model(**input)));
                    }
                    current = output;
                },
                TypeSignatureBuilder::Ground(_) => {
                    break;
                },
            }
        }
        assert(inputs_model(type_model(*current)) =~= Seq::<TypeModel>::empty());
        inputs
    }

    /// The function type from the given inputs, in order, to this type.
    pub fn extend(self, new_inputs: Vec<TypeSignatureBuilder>) -> (r: TypeSignatureBuilder)
        ensures
            type_model(r) == extended_model(type_model(self), new_inputs@.map_values(|t: TypeSignatureBuilder| type_model(t))),
    {
        let ghost models = new_inputs@.map_values(|t: TypeSignatureBuilder| type_model(t));
        let ghost base = type_model(self);
        let mut inputs = new_inputs;
        let mut tail = self;
        while inputs.len() > 0
            invariant
                models.len() == new_inputs@.len(),
                models.len() >= inputs@.len(),
                forall|k: int| 0 <= k < inputs@.len() ==> type_model(#[trigger] inputs@[k]) == models[k],
                type_model(tail) == extended_model(base, models.subrange(inputs@.len() as int, models.len() as int)),
            decreases inputs@.len(),
        {
            let prev = inputs.pop().unwrap();
            proof {
                let n = inputs@.len() as int;
                assert(models.subrange(n, models.len() as int).drop_first() =~= models.subrange(n + 1, models.len() as int));
            }
            tail = TypeSignatureBuilder::Compound(Box::new(prev), Box::new(tail));
        }
        assert(models.subrange(0, models.len() as int) =~= models);
        tail
    }

    /// Whether two function types take inputs of the same types, in the same order.
    pub fn same_inputs(&self, other: &TypeSignatureBuilder) -> (r: bool)
        ensures
            r == (inputs_model(type_model(*self)) == inputs_model(type_model(*other))),
        decreases self,
    {
        match (self, other) {
            (TypeSignatureBuilder::Ground(_), TypeSignatureBuilder::Ground(_)) => true,
            (TypeSignatureBuilder::Compound(a_in, a_out), TypeSignatureBuilder::Compound(b_in, b_out)) => {
                let ghost a = inputs_model(type_model(*self));
                let ghost b = inputs_model(type_model(*other));
                let first = a_in.same_as(b_in);
                let rest = a_out.same_inputs(b_out);
                proof {
                    assert(a[0] == type_model(**a_in));
                    assert(b[0] == type_model(**b_in));
                    assert(a.drop_first() =~= inputs_model(type_model(**a_out)));
                    assert(b.drop_first() =~= inputs_model(type_model(**b_out)));
                    if first && rest {
                        assert(a =~= b);
                    }
                }
                first && rest
            },
            (TypeSignatureBuilder::Ground(_), TypeSignatureBuilder::Compound(_, _)) => {
                assert(inputs_model(type_model(*other)).len() > 0);
                false
            },
            (TypeSignatureBuilder::Compound(_, _), TypeSignatureBuilder::Ground(_)) => {
                assert(inputs_model(type_model(*self)).len() > 0);
                false
            },
        }
    }

    /// What a function type gives once it is applied to an input.
    pub fn applied(&self) -> (r: &TypeSignatureBuilder)
        requires
            *self is Compound,
        ensures
            type_model(*r) == applied_model(type_model(*self)),
    {
        match self {
            TypeSignatureBuilder::Compound(_, output) => output,
            TypeSignatureBuilder::Ground(_) => self,
        }
    }

    /// Whether the inputs of a function type are, in order, the given types.
    pub fn has_inputs(&self, inputs: &Vec<&TypeSignatureBuilder>) -> (r: bool)
        ensures
            r == (inputs_model(type_model(*self)) == inputs@.map_values(|t: &TypeSignatureBuilder| type_model(*t))),
    {
        let ghost wanted = inputs@.map_values(|t: &TypeSignatureBuilder| type_model(*t));
        let mut current = self;
        let mut i: usize = 0;
        while i < inputs.len()
            invariant
                i <= inputs@.len(),
                wanted == inputs@.map_values(|t: &TypeSignatureBuilder| type_model(*t)),
                inputs_model(type_model(*self)) == wanted.subrange(0, i as int) + inputs_model(type_model(*current)),
            decreases inputs@.len() - i,
        {
            match current {
                TypeSignatureBuilder::Ground(_) => {
                    assert(inputs_model(type_model(*self)).len() == i);
                    return false;
                },
                TypeSignatureBuilder::Compound(input, output) => {
                    if !input.same_as(inputs[i]) {
                        assert(inputs_model(type_model(*self))[i as int] == type_model(**input));
                        return false;
                    }
                    assert(wanted.subrange(0, i + 1) =~= wanted.subrange(0, i as int) + seq![type_model(**input)]);
                    current = output;
                },
            }
            i = i + 1;
        }
        assert(wanted.subrange(0, i as int) =~= wanted);
        match current {
            TypeSignatureBuilder::Ground(_) => true,
            TypeSignatureBuilder::Compound(_, _) => {
                assert(inputs_model(type_model(*self)).len() > wanted.len());
                false
            },
        }
    }
}

/// What an operator is looked up by: how it is read and the types of its inputs.
pub struct ReadSignature<'a> {
    pub read: ReadBuilder,
    pub inputs: Vec<&'a TypeSignatureBuilder>,
}

/// The types of the inputs of a read signature.
pub open spec fn signature_inputs(signature: ReadSignature) -> Seq<TypeModel> {
    signature.inputs@.map_values(|t: &TypeSignatureBuilder| type_model(*t))
}

/// The error of a named type, if any: a child of the system must have the id, be a type, and
/// come before the block whose serial number is `max_serial`.
pub open spec fn ground_error(
    ground: TypeSignatureBuilderGround,
    parent_system: Seq<char>,
    max_serial: usize,
    index: BuilderIndex,
) -> Option<TypeSignatureParsingError> {
    match index.child(parent_system, ground.id@) {
        None => Some(TypeSignatureParsingError::TypeIdNotFound),
        Some(child) => if child.kind != SystemChildKind::Type {
            Some(TypeSignatureParsingError::SystemChildWrongKind)
        } else if child.serial < max_serial {
            None
        } else {
            Some(TypeSignatureParsingError::ForwardReference)
        },
    }
}

/// The errors of a signature: one for each named type that has one, left to right.
pub open spec fn type_signature_errors(
    signature: TypeSignatureBuilder,
    parent_system: Seq<char>,
    max_serial: usize,
    index: BuilderIndex,
) -> Seq<TypeSignatureParsingError>
    decreases signature,
{
    match signature {
        TypeSignatureBuilder::Ground(ground) => match ground_error(ground, parent_system, max_serial, index) {
            Some(e) => seq![e],
            None => seq![],
        },
        TypeSignatureBuilder::Compound(input, output) => type_signature_errors(
            *input,
            parent_system,
            max_serial,
            index,
        ) + type_signature_errors(*output, parent_system, max_serial, index),
    }
}

impl TypeSignatureBuilderGround {
    pub fn verify_structure(&self, parent_system: &str, max_serial: usize, index: &BuilderIndex) -> (r: Option<
        TypeSignatureParsingError,
    >)
        requires
            index.wf(),
        ensures
            r == ground_error(*self, parent_system@, max_serial, *index),
    {
        match index.search_system_child(parent_system, self.id.as_str()) {
            None => Some(TypeSignatureParsingError::TypeIdNotFound),
            Some(child) => if child.kind != SystemChildKind::Type {
                Some(TypeSignatureParsingError::SystemChildWrongKind)
            } else if child.serial < max_serial {
                None
            } else {
                Some(TypeSignatureParsingError::ForwardReference)
            },
        }
    }
}

impl TypeSignatureBuilder {
    /// Checks every named type of the signature; the signature passes where the list is empty.
    pub fn verify_structure(&self, parent_system: &str, max_serial: usize, index: &BuilderIndex) -> (r: Vec<
        TypeSignatureParsingError,
    >)
        requires
            index.wf(),
        ensures
            r@ == type_signature_errors(*self, parent_system@, max_serial, *index),
        decreases self,
    {
        match self {
            TypeSignatureBuilder::Ground(ground) => {
                let mut errors = Vec::new();
                match ground.verify_structure(parent_system, max_serial, index) {
                    Some(e) => errors.push(e),
                    None => {},
                }
                errors
            },
            TypeSignatureBuilder::Compound(input, output) => {
                let mut errors = input.verify_structure(parent_system, max_serial, index);
                let mut rest = output.verify_structure(parent_system, max_serial, index);
                errors.append(&mut rest);
                errors
            },
        }
    }
}

/// A variable as it is declared: its id and its type.
pub struct VariableBuilder {
    pub id: String,
    pub type_signature: TypeSignatureBuilder,
}

/// The errors of a variable: those of its type.
pub open spec fn variable_errors(
    variable: VariableBuilder,
    parent_system: Seq<char>,
    max_serial: usize,
    index: BuilderIndex,
) -> Seq<VariableParsingError> {
    type_signature_errors(variable.type_signature, parent_system, max_serial, index).map_values(
        |e: TypeSignatureParsingError| VariableParsingError::TypeSignatureError(e),
    )
}

fn variable_type_error(e: TypeSignatureParsingError) -> (r: VariableParsingError)
    ensures
        r == VariableParsingError::TypeSignatureError(e),
{
    VariableParsingError::TypeSignatureError(e)
}

impl VariableBuilder {
    pub fn verify_structure(&self, parent_system: &str, max_serial: usize, index: &BuilderIndex) -> (r: Vec<
        VariableParsingError,
    >)
        requires
            index.wf(),
        ensures
            r@ == variable_errors(*self, parent_system@, max_serial, *index),
    {
        let inner = self.type_signature.verify_structure(parent_system, max_serial, index);
        let mut errors = Vec::new();
        append_mapped(
            &mut errors,
            &inner,
            variable_type_error,
            Ghost(|e: TypeSignatureParsingError| VariableParsingError::TypeSignatureError(e)),
        );
        errors
    }
}

/// The errors of the first `n` variables of a list, each with the position of its variable.
pub open spec fn variables_errors(
    vars: Seq<VariableBuilder>,
    parent_system: Seq<char>,
    max_serial: usize,
    index: BuilderIndex,
    n: nat,
) -> Seq<(usize, VariableParsingError)>
    decreases n,
{
    if n == 0 || n > vars.len() {
        seq![]
    } else {
        variables_errors(vars, parent_system, max_serial, index, (n - 1) as nat) + variable_errors(
            vars[n - 1],
            parent_system,
            max_serial,
            index,
        ).map_values(|e: VariableParsingError| ((n - 1) as usize, e))
    }
}

fn tag_position<E>(position: usize, e: E) -> (r: (usize, E))
    ensures
        r == (position, e),
{
    (position, e)
}

/// Checks a list of variables; each error comes with the position of its variable.
pub(crate) fn check_variables(
    vars: &Vec<VariableBuilder>,
    parent_system: &str,
    max_serial: usize,
    index: &BuilderIndex,
) -> (r: Vec<(usize, VariableParsingError)>)
    requires
        index.wf(),
    ensures
        r@ == variables_errors(vars@, parent_system@, max_serial, *index, vars@.len()),
{
    let mut errors: Vec<(usize, VariableParsingError)> = Vec::new();
    let mut i: usize = 0;
    while i < vars.len()
        invariant
            i <= vars@.len(),
            index.wf(),
            errors@ == variables_errors(vars@, parent_system@, max_serial, *index, i as nat),
        decreases vars@.len() - i,
    {
        let inner = vars[i].verify_structure(parent_system, max_serial, index);
        let ghost before = errors@;
        let mut j: usize = 0;
        while j < inner.len()
            invariant
                j <= inner@.len(),
                errors@ == before + inner@.take(j as int).map_values(|e: VariableParsingError| (i, e)),
            decreases inner@.len() - j,
        {
            errors.push(tag_position(i, inner[j]));
            proof {
                assert(inner@.take(j + 1) =~= inner@.take(j as int).push(inner@[j as int]));
                assert(errors@ =~= before + inner@.take(j + 1).map_values(|e: VariableParsingError| (i, e)));
            }
            j = j + 1;
        }
        proof {
            assert(inner@.take(j as int) =~= inner@);
        }
        i = i + 1;
    }
    errors
}

/// The errors of the first `n` texts of a description, each with the position of its text, and
/// whether all passed.
pub open spec fn texts_check(texts: Seq<TextBuilder>, index: BuilderIndex, n: nat) -> (bool, Seq<
    (usize, TextParsingError),
>)
    decreases n,
{
    if n == 0 || n > texts.len() {
        (true, seq![])
    } else {
        let before = texts_check(texts, index, (n - 1) as nat);
        let text = text_check(texts[n - 1], index, None);
        (before.0 && text.0, before.1 + text.1.map_values(|e: TextParsingError| ((n - 1) as usize, e)))
    }
}

/// Whether no text of a description refers to a tag.
pub open spec fn texts_no_tag_references(texts: Seq<TextBuilder>) -> bool {
    forall|i: int| 0 <= i < texts.len() ==> text_no_tag_references(#[trigger] texts[i])
}

/// Checks the texts of a description in order.
pub(crate) fn check_texts(texts: &Vec<TextBuilder>, index: &BuilderIndex) -> (r: (bool, Vec<(usize, TextParsingError)>))
    requires
        index.wf(),
        texts_no_tag_references(texts@),
    ensures
        r == (r.0, r.1),
        (r.0, r.1@) == texts_check(texts@, *index, texts@.len()),
{
    let mut ok = true;
    let mut errors: Vec<(usize, TextParsingError)> = Vec::new();
    let mut i: usize = 0;
    while i < texts.len()
        invariant
            i <= texts@.len(),
            index.wf(),
            texts_no_tag_references(texts@),
            (ok, errors@) == texts_check(texts@, *index, i as nat),
        decreases texts@.len() - i,
    {
        let (text_ok, inner) = texts[i].verify_structure(index);
        let ghost before = errors@;
        let mut j: usize = 0;
        while j < inner.len()
            invariant
                j <= inner@.len(),
                errors@ == before + inner@.take(j as int).map_values(|e: TextParsingError| (i, e)),
            decreases inner@.len() - j,
        {
            errors.push(tag_position(i, inner[j]));
            proof {
                assert(inner@.take(j + 1) =~= inner@.take(j as int).push(inner@[j as int]));
                assert(errors@ =~= before + inner@.take(j + 1).map_values(|e: TextParsingError| (i, e)));
            }
            j = j + 1;
        }
        proof {
            assert(inner@.take(j as int) =~= inner@);
        }
        ok = ok && text_ok;
        i = i + 1;
    }
    (ok, errors)
}

/// What checking an entry that must be given exactly once yields, with no further check of it.
pub open spec fn required_entry<E>(n: nat, missing: E, duplicate: E) -> (bool, Seq<E>) {
    if n == 0 {
        (false, seq![missing])
    } else if n == 1 {
        (true, seq![])
    } else {
        (false, seq![duplicate])
    }
}

/// What checking an entry that may be given at most once yields, with no further check of it.
pub open spec fn optional_entry<E>(n: nat, duplicate: E) -> (bool, Seq<E>) {
    if n <= 1 {
        (true, seq![])
    } else {
        (false, seq![duplicate])
    }
}

/// What checking the tagline yields: it must be given once, and is then checked as a paragraph.
pub open spec fn tagline_check<E>(
    taglines: Seq<ParagraphBuilder>,
    index: BuilderIndex,
    missing: E,
    duplicate: E,
    wrap: spec_fn(ParagraphParsingError) -> E,
) -> (bool, Seq<E>) {
    if taglines.len() == 1 {
        (paragraph_ok(taglines[0], index, None), paragraph_errors(taglines[0], index, None).map_values(wrap))
    } else {
        required_entry(taglines.len(), missing, duplicate)
    }
}

/// What checking the description yields: it may be given once, and its texts are then checked.
pub open spec fn description_check<E>(
    descriptions: Seq<Vec<TextBuilder>>,
    index: BuilderIndex,
    duplicate: E,
    wrap: spec_fn((usize, TextParsingError)) -> E,
) -> (bool, Seq<E>) {
    if descriptions.len() == 1 {
        let texts = texts_check(descriptions[0]@, index, descriptions[0]@.len());
        (texts.0, texts.1.map_values(wrap))
    } else {
        optional_entry(descriptions.len(), duplicate)
    }
}

/// Whether the taglines and descriptions of a block refer to no tag.
pub open spec fn prose_no_tag_references(taglines: Seq<ParagraphBuilder>, descriptions: Seq<Vec<TextBuilder>>) -> bool {
    &&& forall|i: int| 0 <= i < taglines.len() ==> no_tag_references(#[trigger] taglines[i])
    &&& forall|i: int| 0 <= i < descriptions.len() ==> texts_no_tag_references((#[trigger] descriptions[i])@)
}

/// Checks an entry that must be given exactly once, from the number of times it was given.
pub(crate) fn check_required<E: Copy>(n: usize, missing: E, duplicate: E, errors: &mut Vec<E>) -> (r: bool)
    ensures
        r == required_entry(n as nat, missing, duplicate).0,
        final(errors)@ == old(errors)@ + required_entry(n as nat, missing, duplicate).1,
{
    if n == 0 {
        errors.push(missing);
        false
    } else if n == 1 {
        assert(errors@ =~= errors@ + Seq::<E>::empty());
        true
    } else {
        errors.push(duplicate);
        false
    }
}

/// Checks an entry that may be given at most once, from the number of times it was given.
pub(crate) fn check_optional<E: Copy>(n: usize, duplicate: E, errors: &mut Vec<E>) -> (r: bool)
    ensures
        r == optional_entry(n as nat, duplicate).0,
        final(errors)@ == old(errors)@ + optional_entry(n as nat, duplicate).1,
{
    if n <= 1 {
        assert(errors@ =~= errors@ + Seq::<E>::empty());
        true
    } else {
        errors.push(duplicate);
        false
    }
}

/// Checks the tagline entries of a block; the errors of the paragraph are tagged by `f`.
pub(crate) fn check_tagline<E: Copy, F: Fn(ParagraphParsingError) -> E>(
    taglines: &Vec<ParagraphBuilder>,
    index: &BuilderIndex,
    missing: E,
    duplicate: E,
    f: F,
    Ghost(wrap): Ghost<spec_fn(ParagraphParsingError) -> E>,
    errors: &mut Vec<E>,
) -> (r: bool)
    requires
        index.wf(),
        forall|i: int| 0 <= i < taglines@.len() ==> no_tag_references(#[trigger] taglines@[i]),
        forall|a: ParagraphParsingError| #[trigger] f.requires((a,)),
        forall|a: ParagraphParsingError, b: E| f.ensures((a,), b) ==> b == wrap(a),
    ensures
        r == tagline_check(taglines@, *index, missing, duplicate, wrap).0,
        final(errors)@ == old(errors)@ + tagline_check(taglines@, *index, missing, duplicate, wrap).1,
{
    if taglines.len() == 1 {
        let (success, inner) = taglines[0].verify_structure(index);
        append_mapped(errors, &inner, f, Ghost(wrap));
        success
    } else {
        check_required(taglines.len(), missing, duplicate, errors)
    }
}

/// Checks the description entries of a block; the errors of its texts are tagged by `f`.
pub(crate) fn check_description<E: Copy, F: Fn((usize, TextParsingError)) -> E>(
    descriptions: &Vec<Vec<TextBuilder>>,
    index: &BuilderIndex,
    duplicate: E,
    f: F,
    Ghost(wrap): Ghost<spec_fn((usize, TextParsingError)) -> E>,
    errors: &mut Vec<E>,
) -> (r: bool)
    requires
        index.wf(),
        forall|i: int| 0 <= i < descriptions@.len() ==> texts_no_tag_references((#[trigger] descriptions@[i])@),
        forall|a: (usize, TextParsingError)| #[trigger] f.requires((a,)),
        forall|a: (usize, TextParsingError), b: E| f.ensures((a,), b) ==> b == wrap(a),
    ensures
        r == description_check(descriptions@, *index, duplicate, wrap).0,
        final(errors)@ == old(errors)@ + description_check(descriptions@, *index, duplicate, wrap).1,
{
    if descriptions.len() == 1 {
        let (success, inner) = check_texts(&descriptions[0], index);
        append_mapped(errors, &inner, f, Ghost(wrap));
        success
    } else {
        check_optional(descriptions.len(), duplicate, errors)
    }
}

/// The entries of a type block as they are written.
pub struct TypeBuilderEntries {
    pub names: Vec<String>,
    pub taglines: Vec<ParagraphBuilder>,
    pub descriptions: Vec<Vec<TextBuilder>>,
}

/// What checking the entries of a type yields: a name and a tagline once each, a description at
/// most once; the tagline and the texts of the description are checked in turn.
pub open spec fn type_entries_check(entries: TypeBuilderEntries, index: BuilderIndex) -> (bool, Seq<TypeParsingError>) {
    let names = required_entry(entries.names@.len(), TypeParsingError::MissingName, TypeParsingError::DuplicateName);
    let tagline = tagline_check(
        entries.taglines@,
        index,
        TypeParsingError::MissingTagline,
        TypeParsingError::DuplicateTagline,
        |e: ParagraphParsingError| TypeParsingError::TaglineParsingError(e),
    );
    let description = description_check(
        entries.descriptions@,
        index,
        TypeParsingError::DuplicateDescription,
        |p: (usize, TextParsingError)| TypeParsingError::DescriptionParsingError(p.0, p.1),
    );
    (names.0 && tagline.0 && description.0, names.1 + tagline.1 + description.1)
}

fn type_tagline_error(e: ParagraphParsingError) -> (r: TypeParsingError)
    ensures
        r == TypeParsingError::TaglineParsingError(e),
{
    TypeParsingError::TaglineParsingError(e)
}

fn type_description_error(p: (usize, TextParsingError)) -> (r: TypeParsingError)
    ensures
        r == TypeParsingError::DescriptionParsingError(p.0, p.1),
{
    TypeParsingError::DescriptionParsingError(p.0, p.1)
}

impl TypeBuilderEntries {
    /// Checks the entries of a type block. Whether the block passed is returned with the errors.
    pub fn verify_structure(&self, index: &BuilderIndex) -> (r: (bool, Vec<TypeParsingError>))
        requires
            index.wf(),
            prose_no_tag_references(self.taglines@, self.descriptions@),
        ensures
            r.0 == type_entries_check(*self, *index).0,
            r.1@ == type_entries_check(*self, *index).1,
    {
        let mut errors: Vec<TypeParsingError> = Vec::new();
        let a = check_required(
            self.names.len(),
            TypeParsingError::MissingName,
            TypeParsingError::DuplicateName,
            &mut errors,
        );
        let b = check_tagline(
            &self.taglines,
            index,
            TypeParsingError::MissingTagline,
            TypeParsingError::DuplicateTagline,
            type_tagline_error,
            Ghost(|e: ParagraphParsingError| TypeParsingError::TaglineParsingError(e)),
            &mut errors,
        );
        let c = check_description(
            &self.descriptions,
            index,
            TypeParsingError::DuplicateDescription,
            type_description_error,
            Ghost(|p: (usize, TextParsingError)| TypeParsingError::DescriptionParsingError(p.0, p.1)),
            &mut errors,
        );
        proof {
            let check = type_entries_check(*self, *index);
            assert(errors@ =~= check.1);
        }
        (a && b && c, errors)
    }
}

/// The entries of a symbol block as they are written.
pub struct SymbolBuilderEntries {
    pub names: Vec<String>,
    pub taglines: Vec<ParagraphBuilder>,
    pub descriptions: Vec<Vec<TextBuilder>>,
    pub type_signatures: Vec<TypeSignatureBuilder>,
    pub reads: Vec<ReadBuilder>,
    pub displays: Vec<Display>,
}

/// What checking the signature of a symbol yields: it must be given once, and every type it names
/// must be a type of the system that comes before the symbol.
pub open spec fn symbol_signature_check(
    signatures: Seq<TypeSignatureBuilder>,
    parent_system: Seq<char>,
    serial: usize,
    index: BuilderIndex,
) -> (bool, Seq<SymbolParsingError>) {
    if signatures.len() == 1 {
        let inner = type_signature_errors(signatures[0], parent_system, serial, index);
        (inner.len() == 0, inner.map_values(|e: TypeSignatureParsingError| SymbolParsingError::TypeSignatureError(e)))
    } else {
        required_entry(
            signatures.len(),
            SymbolParsingError::MissingTypeSignature,
            SymbolParsingError::DuplicateTypeSignature,
        )
    }
}

/// What checking the entries of a symbol yields: a name, a tagline and a type signature once
/// each; a description, a reading and a display at most once.
pub open spec fn symbol_entries_check(
    entries: SymbolBuilderEntries,
    parent_system: Seq<char>,
    serial: usize,
    index: BuilderIndex,
) -> (bool, Seq<SymbolParsingError>) {
    let names = required_entry(entries.names@.len(), SymbolParsingError::MissingName, SymbolParsingError::DuplicateName);
    let tagline = tagline_check(
        entries.taglines@,
        index,
        SymbolParsingError::MissingTagline,
        SymbolParsingError::DuplicateTagline,
        |e: ParagraphParsingError| SymbolParsingError::TaglineParsingError(e),
    );
    let description = description_check(
        entries.descriptions@,
        index,
        SymbolParsingError::DuplicateDescription,
        |p: (usize, TextParsingError)| SymbolParsingError::DescriptionParsingError(p.0, p.1),
    );
    let signature = symbol_signature_check(entries.type_signatures@, parent_system, serial, index);
    let reads = optional_entry(entries.reads@.len(), SymbolParsingError::DuplicateReads);
    let displays = optional_entry(entries.displays@.len(), SymbolParsingError::DuplicateDisplays);
    (
        names.0 && tagline.0 && description.0 && signature.0 && reads.0 && displays.0,
        names.1 + tagline.1 + description.1 + signature.1 + reads.1 + displays.1,
    )
}

fn symbol_tagline_error(e: ParagraphParsingError) -> (r: SymbolParsingError)
    ensures
        r == SymbolParsingError::TaglineParsingError(e),
{
    SymbolParsingError::TaglineParsingError(e)
}

fn symbol_description_error(p: (usize, TextParsingError)) -> (r: SymbolParsingError)
    ensures
        r == SymbolParsingError::DescriptionParsingError(p.0, p.1),
{
    SymbolParsingError::DescriptionParsingError(p.0, p.1)
}

fn symbol_signature_error(e: TypeSignatureParsingError) -> (r: SymbolParsingError)
    ensures
        r == SymbolParsingError::TypeSignatureError(e),
{
    SymbolParsingError::TypeSignatureError(e)
}

impl SymbolBuilderEntries {
    /// Checks the entries of a symbol block of the system `parent_system` whose serial number is
    /// `serial`. Whether the block passed is returned with the errors.
    pub fn verify_structure(&self, parent_system: &str, serial: usize, index: &BuilderIndex) -> (r: (
        bool,
        Vec<SymbolParsingError>,
    ))
        requires
            index.wf(),
            prose_no_tag_references(self.taglines@, self.descriptions@),
        ensures
            r.0 == symbol_entries_check(*self, parent_system@, serial, *index).0,
            r.1@ == symbol_entries_check(*self, parent_system@, serial, *index).1,
    {
        let mut errors: Vec<SymbolParsingError> = Vec::new();
        let a = check_required(
            self.names.len(),
            SymbolParsingError::MissingName,
            SymbolParsingError::DuplicateName,
            &mut errors,
        );
        let b = check_tagline(
            &self.taglines,
            index,
            SymbolParsingError::MissingTagline,
            SymbolParsingError::DuplicateTagline,
            symbol_tagline_error,
            Ghost(|e: ParagraphParsingError| SymbolParsingError::TaglineParsingError(e)),
            &mut errors,
        );
        let c = check_description(
            &self.descriptions,
            index,
            SymbolParsingError::DuplicateDescription,
            symbol_description_error,
            Ghost(|p: (usize, TextParsingError)| SymbolParsingError::DescriptionParsingError(p.0, p.1)),
            &mut errors,
        );
        let d = if self.type_signatures.len() == 1 {
            let inner = self.type_signatures[0].verify_structure(parent_system, serial, index);
            let success = inner.len() == 0;
            append_mapped(
                &mut errors,
                &inner,
                symbol_signature_error,
                Ghost(|e: TypeSignatureParsingError| SymbolParsingError::TypeSignatureError(e)),
            );
            success
        } else {
            check_required(
                self.type_signatures.len(),
                SymbolParsingError::MissingTypeSignature,
                SymbolParsingError::DuplicateTypeSignature,
                &mut errors,
            )
        };
        let e = check_optional(self.reads.len(), SymbolParsingError::DuplicateReads, &mut errors);
        let f = check_optional(self.displays.len(), SymbolParsingError::DuplicateDisplays, &mut errors);
        proof {
            let check = symbol_entries_check(*self, parent_system@, serial, *index);
            assert(errors@ =~= check.1);
        }
        (a && b && c && d && e && f, errors)
    }
}

/// A symbol or a definition, which can be read with an operator.
#[derive(Clone, Copy, PartialEq, Eq, Debug, Structural)]
pub enum ReadableBuilder {
    Symbol(SymbolBuilderRef),
    Definition(DefinitionBuilderRef),
}

/// An axiom or a theorem, which can justify a step.
#[derive(Clone, Copy, PartialEq, Eq, Debug, Structural)]
pub enum DeductableBuilder {
    Axiom(AxiomBuilderRef),
    Theorem(TheoremBuilderRef),
}

/// A formula as it was read, with its symbols, variables and operators resolved.
pub enum FormulaBuilder {
    Symbol(SymbolBuilderRef),
    Variable(VariableBuilderRef),
    Prefix(ReadableBuilder, Box<FormulaBuilder>),
    Infix(ReadableBuilder, Box<FormulaBuilder>, Box<FormulaBuilder>),
    ReadableApplication(ReadableBuilder, Vec<FormulaBuilder>),
}

/// The operator and the two variables of a binary formula whose sides are variables, if it is one.
pub open spec fn simple_binary_of(formula: FormulaBuilder) -> Option<(ReadableBuilder, VariableBuilderRef, VariableBuilderRef)> {
    match formula {
        FormulaBuilder::Infix(r, lhs, rhs) => match (*lhs, *rhs) {
            (FormulaBuilder::Variable(a), FormulaBuilder::Variable(b)) => Some((r, a, b)),
            _ => None,
        },
        _ => None,
    }
}

/// The inputs of an application of an operator.
pub open spec fn application_inputs(formula: FormulaBuilder) -> Seq<FormulaBuilder> {
    match formula {
        FormulaBuilder::Prefix(_, inner) => seq![*inner],
        FormulaBuilder::Infix(_, lhs, rhs) => seq![*lhs, *rhs],
        _ => seq![],
    }
}

/// The operator of an application.
pub open spec fn application_operator(formula: FormulaBuilder) -> ReadableBuilder {
    match formula {
        FormulaBuilder::Prefix(r, _) => r,
        FormulaBuilder::Infix(r, _, _) => r,
        FormulaBuilder::ReadableApplication(r, _) => r,
        _ => ReadableBuilder::Symbol(SymbolBuilderRef(0)),
    }
}

impl FormulaBuilder {
    /// The variable that the formula is, if it is one.
    pub fn variable(&self) -> (r: Option<VariableBuilderRef>)
        ensures
            r == (match *self {
                FormulaBuilder::Variable(v) => Some(v),
                _ => None,
            }),
    {
        match self {
            FormulaBuilder::Variable(v) => Some(*v),
            _ => None,
        }
    }

    /// The operator and the two sides of a binary formula. Only formulas read with an infix
    /// operator are binary.
    pub fn binary(&self) -> (r: Option<(ReadableBuilder, &FormulaBuilder, &FormulaBuilder)>)
        requires
            *self is Infix,
        ensures
            r matches Some(t) && *self == FormulaBuilder::Infix(t.0, Box::new(*t.1), Box::new(*t.2)),
    {
        match self {
            FormulaBuilder::Infix(r, lhs, rhs) => Some((*r, lhs, rhs)),
            _ => None,
        }
    }

    /// The operator and the two variables of a binary formula whose sides are variables.
    pub fn simple_binary(&self) -> (r: Option<(ReadableBuilder, VariableBuilderRef, VariableBuilderRef)>)
        requires
            *self is Infix,
        ensures
            r == simple_binary_of(*self),
    {
        match self.binary() {
            Some((r, lhs, rhs)) => match (lhs.variable(), rhs.variable()) {
                (Some(a), Some(b)) => Some((r, a, b)),
                _ => None,
            },
            None => None,
        }
    }

    /// The operator of an application written with a prefix or infix operator, and its inputs.
    pub fn application(&self) -> (r: Option<(ReadableBuilder, Vec<&FormulaBuilder>)>)
        requires
            *self is Prefix || *self is Infix,
        ensures
            r matches Some(t) && t.0 == application_operator(*self) && t.1@.len() == application_inputs(
                *self,
            ).len() && forall|i: int| 0 <= i < t.1@.len() ==> *t.1@[i] == application_inputs(*self)[i],
    {
        match self {
            FormulaBuilder::Prefix(r, inner) => {
                let mut inputs: Vec<&FormulaBuilder> = Vec::new();
                inputs.push(inner);
                Some((*r, inputs))
            },
            FormulaBuilder::Infix(r, lhs, rhs) => {
                let mut inputs: Vec<&FormulaBuilder> = Vec::new();
                inputs.push(lhs);
                inputs.push(rhs);
                Some((*r, inputs))
            },
            _ => None,
        }
    }
}

/// The deductable that a list of pairs gives a key: that of the first pair with the key.
pub open spec fn first_binding(pairs: Seq<(ReadableBuilder, DeductableBuilder)>, key: ReadableBuilder) -> Option<
    DeductableBuilder,
>
    decreases pairs.len(),
{
    if pairs.len() == 0 {
        None
    } else {
        match first_binding(pairs.drop_last(), key) {
            Some(d) => Some(d),
            None => if pairs.last().0 == key {
                Some(pairs.last().1)
            } else {
                None
            },
        }
    }
}

proof fn lemma_first_binding_prefix(pairs: Seq<(ReadableBuilder, DeductableBuilder)>, n: int, key: ReadableBuilder)
    requires
        0 <= n <= pairs.len(),
        first_binding(pairs.take(n), key) is Some,
    ensures
        first_binding(pairs, key) == first_binding(pairs.take(n), key),
    decreases pairs.len() - n,
{
    if n < pairs.len() {
        assert(pairs.take(n + 1).drop_last() =~= pairs.take(n));
        lemma_first_binding_prefix(pairs, n + 1, key);
    } else {
        assert(pairs.take(n) =~= pairs);
    }
}

/// The properties that axioms and theorems claim of a symbol or definition: the statement that
/// makes it reflexive, symmetric or transitive, and for each relation, the statement that makes
/// it a function over that relation. A property is claimed once.
pub struct PropertyList {
    pub reflexive: Option<DeductableBuilder>,
    pub symmetric: Option<DeductableBuilder>,
    pub transitive: Option<DeductableBuilder>,
    pub function: Vec<(ReadableBuilder, DeductableBuilder)>,
}

/// What a property list holds, as plain values.
pub struct PropertyModel {
    pub reflexive: Option<DeductableBuilder>,
    pub symmetric: Option<DeductableBuilder>,
    pub transitive: Option<DeductableBuilder>,
    pub function: Seq<(ReadableBuilder, DeductableBuilder)>,
}

impl PropertyList {
    pub open spec fn model(&self) -> PropertyModel {
        PropertyModel {
            reflexive: self.reflexive,
            symmetric: self.symmetric,
            transitive: self.transitive,
            function: self.function@,
        }
    }

    pub open spec fn function_of(&self, relation: ReadableBuilder) -> Option<DeductableBuilder> {
        first_binding(self.function@, relation)
    }

    /// What a fresh property list holds: no property.
    pub open spec fn new_model() -> PropertyModel {
        PropertyModel { reflexive: None, symmetric: None, transitive: None, function: seq![] }
    }

    pub fn new() -> (r: PropertyList)
        ensures
            r.function@ == Seq::<(ReadableBuilder, DeductableBuilder)>::empty(),
            r.reflexive is None,
            r.symmetric is None,
            r.transitive is None,
            forall|relation: ReadableBuilder| #[trigger] r.function_of(relation) is None,
    {
        PropertyList { reflexive: None, symmetric: None, transitive: None, function: Vec::new() }
    }

    /// A copy of the list.
    pub fn duplicate(&self) -> (r: PropertyList)
        ensures
            r.reflexive == self.reflexive,
            r.symmetric == self.symmetric,
            r.transitive == self.transitive,
            r.function@ == self.function@,
    {
        let mut function: Vec<(ReadableBuilder, DeductableBuilder)> = Vec::new();
        let mut i: usize = 0;
        while i < self.function.len()
            invariant
                i <= self.function@.len(),
                function@ == self.function@.take(i as int),
            decreases self.function@.len() - i,
        {
            function.push(self.function[i]);
            proof {
                assert(function@ =~= self.function@.take(i + 1));
            }
            i = i + 1;
        }
        proof {
            assert(self.function@.take(i as int) =~= self.function@);
        }
        PropertyList { reflexive: self.reflexive, symmetric: self.symmetric, transitive: self.transitive, function }
    }

    /// Records the statement that makes `readable` reflexive; where one was recorded before, the
    /// list is unchanged and the error is returned.
    pub fn set_reflexive(&mut self, readable: ReadableBuilder, deductable: DeductableBuilder) -> (r: Option<
        (ReadableBuilder, ReadableParsingError),
    >)
        ensures
            r == (if old(self).reflexive is Some {
                Some((readable, ReadableParsingError::DuplicateReflexive(deductable)))
            } else {
                None
            }),
            final(self).reflexive == (if old(self).reflexive is Some {
                old(self).reflexive
            } else {
                Some(deductable)
            }),
            final(self).symmetric == old(self).symmetric,
            final(self).transitive == old(self).transitive,
            final(self).function == old(self).function,
    {
        if self.reflexive.is_some() {
            Some((readable, ReadableParsingError::DuplicateReflexive(deductable)))
        } else {
            self.reflexive = Some(deductable);
            None
        }
    }

    pub fn get_reflexive(&self) -> (r: Option<DeductableBuilder>)
        ensures
            r == self.reflexive,
    {
        self.reflexive
    }

    /// Records the statement that makes `readable` symmetric; where one was recorded before, the
    /// list is unchanged and the error is returned.
    pub fn set_symmetric(&mut self, readable: ReadableBuilder, deductable: DeductableBuilder) -> (r: Option<
        (ReadableBuilder, ReadableParsingError),
    >)
        ensures
            r == (if old(self).symmetric is Some {
                Some((readable, ReadableParsingError::DuplicateSymmetric(deductable)))
            } else {
                None
            }),
            final(self).symmetric == (if old(self).symmetric is Some {
                old(self).symmetric
            } else {
                Some(deductable)
            }),
            final(self).reflexive == old(self).reflexive,
            final(self).transitive == old(self).transitive,
            final(self).function == old(self).function,
    {
        if self.symmetric.is_some() {
            Some((readable, ReadableParsingError::DuplicateSymmetric(deductable)))
        } else {
            self.symmetric = Some(deductable);
            None
        }
    }

    pub fn get_symmetric(&self) -> (r: Option<DeductableBuilder>)
        ensures
            r == self.symmetric,
    {
        self.symmetric
    }

    /// Records the statement that makes `readable` transitive; where one was recorded before, the
    /// list is unchanged and the error is returned.
    pub fn set_transitive(&mut self, readable: ReadableBuilder, deductable: DeductableBuilder) -> (r: Option<
        (ReadableBuilder, ReadableParsingError),
    >)
        ensures
            r == (if old(self).transitive is Some {
                Some((readable, ReadableParsingError::DuplicateTransitive(deductable)))
            } else {
                None
            }),
            final(self).transitive == (if old(self).transitive is Some {
                old(self).transitive
            } else {
                Some(deductable)
            }),
            final(self).reflexive == old(self).reflexive,
            final(self).symmetric == old(self).symmetric,
            final(self).function == old(self).function,
    {
        if self.transitive.is_some() {
            Some((readable, ReadableParsingError::DuplicateTransitive(deductable)))
        } else {
            self.transitive = Some(deductable);
            None
        }
    }

    /// Records the statement that makes `readable` a function over `relation`; where one was
    /// recorded for that relation before, the list is unchanged and the error is returned.
    pub fn set_function(
        &mut self,
        readable: ReadableBuilder,
        deductable: DeductableBuilder,
        relation: ReadableBuilder,
    ) -> (r: Option<(ReadableBuilder, ReadableParsingError)>)
        ensures
            r == (if old(self).function_of(relation) is Some {
                Some((readable, ReadableParsingError::DuplicateFunction(relation, deductable)))
            } else {
                None
            }),
            final(self).function@ == (if r is None {
                old(self).function@.push((relation, deductable))
            } else {
                old(self).function@
            }),
            forall|rel: ReadableBuilder| #[trigger] final(self).function_of(rel) == (if rel == relation && r is None {
                Some(deductable)
            } else {
                old(self).function_of(rel)
            }),
            final(self).reflexive == old(self).reflexive,
            final(self).symmetric == old(self).symmetric,
            final(self).transitive == old(self).transitive,
    {
        if self.get_function(relation).is_some() {
            Some((readable, ReadableParsingError::DuplicateFunction(relation, deductable)))
        } else {
            self.function.push((relation, deductable));
            proof {
                assert(self.function@.drop_last() =~= old(self).function@);
            }
            None
        }
    }

    /// The statement that makes the symbol or definition a function over `relation`, if any.
    pub fn get_function(&self, relation: ReadableBuilder) -> (r: Option<DeductableBuilder>)
        ensures
            r == self.function_of(relation),
    {
        let mut i: usize = 0;
        while i < self.function.len()
            invariant
                i <= self.function@.len(),
                first_binding(self.function@.take(i as int), relation) is None,
            decreases self.function@.len() - i,
        {
            proof {
                assert(self.function@.take(i + 1).drop_last() =~= self.function@.take(i as int));
            }
            let (key, value) = self.function[i];
            if key == relation {
                proof {
                    lemma_first_binding_prefix(self.function@, i + 1, relation);
                }
                return Some(value);
            }
            i = i + 1;
        }
        proof {
            assert(self.function@.take(i as int) =~= self.function@);
        }
        None
    }

    pub fn is_reflexive(&self) -> (r: bool)
        ensures
            r == self.reflexive is Some,
    {
        self.reflexive.is_some()
    }

    pub fn is_symmetric(&self) -> (r: bool)
        ensures
            r == self.symmetric is Some,
    {
        self.symmetric.is_some()
    }

    pub fn is_transitive(&self) -> (r: bool)
        ensures
            r == self.transitive is Some,
    {
        self.transitive.is_some()
    }

    /// Whether the relation is a preorder: reflexive and transitive.
    pub fn is_preorder(&self) -> (r: bool)
        ensures
            r == (self.reflexive is Some && self.transitive is Some),
    {
        self.is_reflexive() && self.is_transitive()
    }
}

/// A formula as it is written in a block: the formula as it was read, and the row of signs that
/// displays it, which has no operator with input rows.
pub struct DisplayFormulaBuilder {
    pub display: MathBuilder,
    pub formula: FormulaBuilder,
}

/// The entries of a definition block as they are written.
pub struct DefinitionBuilderEntries {
    pub names: Vec<String>,
    pub taglines: Vec<ParagraphBuilder>,
    pub descriptions: Vec<Vec<TextBuilder>>,
    pub inputs: Vec<Vec<VariableBuilder>>,
    pub reads: Vec<ReadBuilder>,
    pub displays: Vec<Display>,
    pub expansions: Vec<DisplayFormulaBuilder>,
}

/// What checking the inputs of a definition yields: they may be given once, and each variable is
/// then checked; errors of variables do not make the block fail.
pub open spec fn definition_inputs_check(
    inputs: Seq<Vec<VariableBuilder>>,
    parent_system: Seq<char>,
    serial: usize,
    index: BuilderIndex,
) -> (bool, Seq<DefinitionParsingError>) {
    if inputs.len() == 1 {
        (
            true,
            variables_errors(inputs[0]@, parent_system, serial, index, inputs[0]@.len()).map_values(
                |p: (usize, VariableParsingError)| DefinitionParsingError::VariableError(p.0, p.1),
            ),
        )
    } else {
        optional_entry(inputs.len(), DefinitionParsingError::DuplicateInputs)
    }
}

/// What checking the entries of a definition yields: a name, a tagline and an expansion once
/// each; a description, a list of inputs, a reading and a display at most once.
pub open spec fn definition_entries_check(
    entries: DefinitionBuilderEntries,
    parent_system: Seq<char>,
    serial: usize,
    index: BuilderIndex,
) -> (bool, Seq<DefinitionParsingError>) {
    let names = required_entry(
        entries.names@.len(),
        DefinitionParsingError::MissingName,
        DefinitionParsingError::DuplicateName,
    );
    let tagline = tagline_check(
        entries.taglines@,
        index,
        DefinitionParsingError::MissingTagline,
        DefinitionParsingError::DuplicateTagline,
        |e: ParagraphParsingError| DefinitionParsingError::TaglineParsingError(e),
    );
    let description = description_check(
        entries.descriptions@,
        index,
        DefinitionParsingError::DuplicateDescription,
        |p: (usize, TextParsingError)| DefinitionParsingError::DescriptionParsingError(p.0, p.1),
    );
    let inputs = definition_inputs_check(entries.inputs@, parent_system, serial, index);
    let reads = optional_entry(entries.reads@.len(), DefinitionParsingError::DuplicateReads);
    let displays = optional_entry(entries.displays@.len(), DefinitionParsingError::DuplicateDisplays);
    let expansions = required_entry(
        entries.expansions@.len(),
        DefinitionParsingError::MissingExpansion,
        DefinitionParsingError::DuplicateExpansion,
    );
    (
        names.0 && tagline.0 && description.0 && inputs.0 && reads.0 && displays.0 && expansions.0,
        names.1 + tagline.1 + description.1 + inputs.1 + reads.1 + displays.1 + expansions.1,
    )
}

fn definition_tagline_error(e: ParagraphParsingError) -> (r: DefinitionParsingError)
    ensures
        r == DefinitionParsingError::TaglineParsingError(e),
{
    DefinitionParsingError::TaglineParsingError(e)
}

fn definition_description_error(p: (usize, TextParsingError)) -> (r: DefinitionParsingError)
    ensures
        r == DefinitionParsingError::DescriptionParsingError(p.0, p.1),
{
    DefinitionParsingError::DescriptionParsingError(p.0, p.1)
}

fn definition_variable_error(p: (usize, VariableParsingError)) -> (r: DefinitionParsingError)
    ensures
        r == DefinitionParsingError::VariableError(p.0, p.1),
{
    DefinitionParsingError::VariableError(p.0, p.1)
}

impl DefinitionBuilderEntries {
    /// Checks the entries of a definition block of the system `parent_system` whose serial
    /// number is `serial`. Whether the block passed is returned with the errors.
    pub fn verify_structure(&self, parent_system: &str, serial: usize, index: &BuilderIndex) -> (r: (
        bool,
        Vec<DefinitionParsingError>,
    ))
        requires
            index.wf(),
            prose_no_tag_references(self.taglines@, self.descriptions@),
            self.expansions@.len() == 1 ==> math_error(self.expansions@[0].display) is None,
        ensures
            r.0 == definition_entries_check(*self, parent_system@, serial, *index).0,
            r.1@ == definition_entries_check(*self, parent_system@, serial, *index).1,
    {
        let mut errors: Vec<DefinitionParsingError> = Vec::new();
        let a = check_required(
            self.names.len(),
            DefinitionParsingError::MissingName,
            DefinitionParsingError::DuplicateName,
            &mut errors,
        );
        let b = check_tagline(
            &self.taglines,
            index,
            DefinitionParsingError::MissingTagline,
            DefinitionParsingError::DuplicateTagline,
            definition_tagline_error,
            Ghost(|e: ParagraphParsingError| DefinitionParsingError::TaglineParsingError(e)),
            &mut errors,
        );
        let c = check_description(
            &self.descriptions,
            index,
            DefinitionParsingError::DuplicateDescription,
            definition_description_error,
            Ghost(|p: (usize, TextParsingError)| DefinitionParsingError::DescriptionParsingError(p.0, p.1)),
            &mut errors,
        );
        let d = if self.inputs.len() == 1 {
            let inner = check_variables(&self.inputs[0], parent_system, serial, index);
            append_mapped(
                &mut errors,
                &inner,
                definition_variable_error,
                Ghost(|p: (usize, VariableParsingError)| DefinitionParsingError::VariableError(p.0, p.1)),
            );
            true
        } else {
            check_optional(self.inputs.len(), DefinitionParsingError::DuplicateInputs, &mut errors)
        };
        let e = check_optional(self.reads.len(), DefinitionParsingError::DuplicateReads, &mut errors);
        let f = check_optional(self.displays.len(), DefinitionParsingError::DuplicateDisplays, &mut errors);
        let g = check_required(
            self.expansions.len(),
            DefinitionParsingError::MissingExpansion,
            DefinitionParsingError::DuplicateExpansion,
            &mut errors,
        );
        proof {
            let check = definition_entries_check(*self, parent_system@, serial, *index);
            assert(errors@ =~= check.1);
        }
        (a && b && c && d && e && f && g, errors)
    }
}

/// The notation of a symbol or definition: the one given, or else that of its reading.
pub open spec fn display_of(displays: Seq<Display>, reads: Seq<ReadBuilder>) -> (Seq<char>, DisplayStyle) {
    if displays.len() > 0 {
        (displays[0].id@, displays[0].style)
    } else {
        (
            read_operator_sign(reads[0].operator),
            match reads[0].style {
                ReadStyle::Prefix => DisplayStyle::Prefix,
                ReadStyle::Infix => DisplayStyle::Infix,
            },
        )
    }
}

fn chosen_display(displays: &Vec<Display>, reads: &Vec<ReadBuilder>) -> (r: Display)
    requires
        displays@.len() > 0 || reads@.len() > 0,
    ensures
        (r.id@, r.style) == display_of(displays@, reads@),
{
    if displays.len() > 0 {
        Display::new(displays[0].style, displays[0].id.clone())
    } else {
        reads[0].to_display()
    }
}

/// The texts of a description given at most once: none where it is missing.
pub open spec fn description_of(descriptions: Seq<Vec<TextBuilder>>) -> Seq<TextBuilder> {
    if descriptions.len() > 0 {
        descriptions[0]@
    } else {
        seq![]
    }
}

pub(crate) fn first_description(descriptions: &Vec<Vec<TextBuilder>>) -> (r: &[TextBuilder])
    ensures
        r@ == description_of(descriptions@),
{
    if descriptions.len() > 0 {
        descriptions[0].as_slice()
    } else {
        let empty: &[TextBuilder] = &[];
        assert(empty@ =~= Seq::<TextBuilder>::empty());
        empty
    }
}

impl TypeBuilderEntries {
    /// The texts of the description, none where there is none.
    pub fn description(&self) -> (r: &[TextBuilder])
        ensures
            r@ == description_of(self.descriptions@),
    {
        first_description(&self.descriptions)
    }
}

impl SymbolBuilderEntries {
    /// The texts of the description, none where there is none.
    pub fn description(&self) -> (r: &[TextBuilder])
        ensures
            r@ == description_of(self.descriptions@),
    {
        first_description(&self.descriptions)
    }

    /// How the symbol is written: the notation given, or else that of its reading.
    pub fn display(&self) -> (r: Display)
        requires
            self.displays@.len() > 0 || self.reads@.len() > 0,
        ensures
            (r.id@, r.style) == display_of(self.displays@, self.reads@),
    {
        chosen_display(&self.displays, &self.reads)
    }
}

impl DefinitionBuilderEntries {
    /// The texts of the description, none where there is none.
    pub fn description(&self) -> (r: &[TextBuilder])
        ensures
            r@ == description_of(self.descriptions@),
    {
        first_description(&self.descriptions)
    }

    /// How the definition is written: the notation given, or else that of its reading.
    pub fn display(&self) -> (r: Display)
        requires
            self.displays@.len() > 0 || self.reads@.len() > 0,
        ensures
            (r.id@, r.style) == display_of(self.displays@, self.reads@),
    {
        chosen_display(&self.displays, &self.reads)
    }
}

} // verus!
