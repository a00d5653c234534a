use vstd::prelude::*;

use super::directory::{
    local_errors, CheckableDirectory, DefinitionRef, LocalCheckableDirectory, SymbolRef, SystemRef, TypeRef,
    VariableRef,
};
use super::errors::{
    append_mapped, DefinitionCheckingError, LocalCheckingError, FormulaCheckingError, SymbolCheckingError,
    TypeCheckingError, TypeSignatureCheckingError, VariableCheckingError,
};

verus! {

pub struct Type {
    pub id: String,
    pub system_ref: SystemRef,
}

/// The errors of a type: its system must exist.
pub open spec fn type_errors(ty: Type, directory: CheckableDirectory) -> Seq<TypeCheckingError> {
    if directory.has_system(ty.system_ref) {
        seq![]
    } else {
        seq![TypeCheckingError::InvalidSystemRef]
    }
}

impl Type {
    pub fn new(id: String, system_ref: SystemRef) -> (r: Type)
        ensures
            r.id == id,
            r.system_ref == system_ref,
    {
        Type { id, system_ref }
    }

    pub fn verify(&self, directory: &CheckableDirectory) -> (r: Vec<TypeCheckingError>)
        ensures
            r@ == type_errors(*self, *directory),
    {
        let mut errors = Vec::new();
        if !directory.contains_system(self.system_ref) {
            errors.push(TypeCheckingError::InvalidSystemRef);
        }
        errors
    }
}

/// A ground type, or the type of functions from an input type to an output type.
#[derive(Debug)]
pub enum TypeSignature {
    Ground(TypeRef),
    Compound(Box<TypeSignature>, Box<TypeSignature>),
}

/// The type references of a signature that name no type, from left to right.
pub open spec fn type_signature_errors(
    type_signature: TypeSignature,
    directory: CheckableDirectory,
) -> Seq<TypeSignatureCheckingError>
    decreases type_signature,
{
    match type_signature {
        TypeSignature::Ground(type_ref) => if directory.has_type(type_ref) {
            seq![]
        } else {
            seq![TypeSignatureCheckingError::InvalidTypeRef(type_ref)]
        },
        TypeSignature::Compound(input, output) => type_signature_errors(*input, directory)
            + type_signature_errors(*output, directory),
    }
}

impl TypeSignature {
    pub fn duplicate(&self) -> (r: TypeSignature)
        ensures
            r == *self,
        decreases self,
    {
        match self {
            TypeSignature::Ground(type_ref) => TypeSignature::Ground(*type_ref),
            TypeSignature::Compound(input, output) => TypeSignature::Compound(
                Box::new(input.duplicate()),
                Box::new(output.duplicate()),
            ),
        }
    }

    /// Whether the two signatures are the same.
    pub fn equals(&self, other: &TypeSignature) -> (r: bool)
        ensures
            r == (*self == *other),
        decreases self,
    {
        match (self, other) {
            (TypeSignature::Ground(a), TypeSignature::Ground(b)) => a.0 == b.0,
            (TypeSignature::Compound(i, o), TypeSignature::Compound(j, p)) => i.equals(j) && o.equals(p),
            _ => false,
        }
    }

    pub fn verify(&self, directory: &CheckableDirectory) -> (r: Vec<TypeSignatureCheckingError>)
        ensures
            r@ == type_signature_errors(*self, *directory),
        decreases self,
    {
        match self {
            TypeSignature::Ground(type_ref) => {
                let mut errors = Vec::new();
                if !directory.contains_type(*type_ref) {
                    errors.push(TypeSignatureCheckingError::InvalidTypeRef(*type_ref));
                }
                errors
            },
            TypeSignature::Compound(input, output) => {
                let mut errors = input.verify(directory);
                let mut rest = output.verify(directory);
                errors.append(&mut rest);
                errors
            },
        }
    }
}

pub struct Symbol {
    pub id: String,
    pub system_ref: SystemRef,
    pub type_signature: TypeSignature,
}

/// The errors of a symbol: a missing system, then those of its signature.
pub open spec fn symbol_errors(symbol: Symbol, directory: CheckableDirectory) -> Seq<
    SymbolCheckingError,
> {
    (if directory.has_system(symbol.system_ref) {
        seq![]
    } else {
        seq![SymbolCheckingError::InvalidSystemRef]
    }) + type_signature_errors(symbol.type_signature, directory).map_values(
        |e: TypeSignatureCheckingError| SymbolCheckingError::TypeSignatureError(e),
    )
}

fn symbol_type_signature_error(e: TypeSignatureCheckingError) -> (r: SymbolCheckingError)
    ensures
        r == SymbolCheckingError::TypeSignatureError(e),
{
    SymbolCheckingError::TypeSignatureError(e)
}

impl Symbol {
    pub fn new(id: String, system_ref: SystemRef, type_signature: TypeSignature) -> (r: Symbol)
        ensures
            r.id == id,
            r.system_ref == system_ref,
            r.type_signature == type_signature,
    {
        Symbol { id, system_ref, type_signature }
    }

    pub fn verify(&self, directory: &CheckableDirectory) -> (r: Vec<SymbolCheckingError>)
        ensures
            r@ == symbol_errors(*self, *directory),
    {
        let mut errors = Vec::new();
        if !directory.contains_system(self.system_ref) {
            errors.push(SymbolCheckingError::InvalidSystemRef);
        }
        let inner = self.type_signature.verify(directory);
        append_mapped(
            &mut errors,
            &inner,
            symbol_type_signature_error,
            Ghost(|e: TypeSignatureCheckingError| SymbolCheckingError::TypeSignatureError(e)),
        );
        errors
    }
}

pub struct Variable {
    pub id: String,
    pub type_signature: TypeSignature,
}

/// The errors of a variable: those of its signature.
pub open spec fn variable_errors(variable: Variable, directory: CheckableDirectory) -> Seq<
    VariableCheckingError,
> {
    type_signature_errors(variable.type_signature, directory).map_values(
        |e: TypeSignatureCheckingError| VariableCheckingError::TypeSignatureError(e),
    )
}

fn variable_type_signature_error(e: TypeSignatureCheckingError) -> (r: VariableCheckingError)
    ensures
        r == VariableCheckingError::TypeSignatureError(e),
{
    VariableCheckingError::TypeSignatureError(e)
}

impl Variable {
    pub fn new(id: String, type_signature: TypeSignature) -> (r: Variable)
        ensures
            r.id == id,
            r.type_signature == type_signature,
    {
        Variable { id, type_signature }
    }

    pub fn verify(&self, directory: &CheckableDirectory) -> (r: Vec<VariableCheckingError>)
        ensures
            r@ == variable_errors(*self, *directory),
    {
        let mut errors = Vec::new();
        let inner = self.type_signature.verify(directory);
        append_mapped(
            &mut errors,
            &inner,
            variable_type_signature_error,
            Ghost(|e: TypeSignatureCheckingError| VariableCheckingError::TypeSignatureError(e)),
        );
        errors
    }
}

/// A formula: a symbol, a variable, the application of a function to an input, or a defined
/// notation applied to its inputs.
#[derive(Debug)]
pub enum Formula {
    Symbol(SymbolRef),
    Variable(VariableRef),
    Application(Box<Formula>, Box<Formula>),
    Definition(DefinitionRef, Vec<Formula>),
}

/// The mathematical value of a formula: the same tree, with the inputs of a definition as a
/// sequence.
pub enum FormulaModel {
    Symbol(SymbolRef),
    Variable(VariableRef),
    Application(Box<FormulaModel>, Box<FormulaModel>),
    Definition(DefinitionRef, Seq<FormulaModel>),
}

/// The values of a sequence of formulas.
pub open spec fn models(formulas: Seq<Formula>) -> Seq<FormulaModel>
    decreases formulas,
{
    Seq::new(
        formulas.len(),
        |i: int|
            if 0 <= i < formulas.len() {
                formulas[i].model()
            } else {
                FormulaModel::Symbol(SymbolRef(0))
            },
    )
}

/// The map that a list of variables and a list of replacements give when paired in order, the
/// later pair winning where a variable occurs twice; pairs past the shorter list are dropped.
pub open spec fn bind(keys: Seq<VariableRef>, values: Seq<FormulaModel>, n: nat) -> Map<
    VariableRef,
    FormulaModel,
>
    decreases n,
{
    if n == 0 {
        Map::empty()
    } else {
        bind(keys, values, (n - 1) as nat).insert(keys[n - 1], values[n - 1])
    }
}

pub open spec fn min_len(a: nat, b: nat) -> nat {
    if a <= b {
        a
    } else {
        b
    }
}

/// Replaces each variable that the map binds by its image; other variables stay.
pub open spec fn subst(formula: FormulaModel, map: Map<VariableRef, FormulaModel>) -> FormulaModel
    decreases formula,
{
    match formula {
        FormulaModel::Symbol(_) => formula,
        FormulaModel::Variable(v) => if map.contains_key(v) {
            map[v]
        } else {
            formula
        },
        FormulaModel::Application(function, input) => FormulaModel::Application(
            Box::new(subst(*function, map)),
            Box::new(subst(*input, map)),
        ),
        FormulaModel::Definition(d, inputs) => FormulaModel::Definition(
            d,
            Seq::new(
                inputs.len(),
                |i: int|
                    if 0 <= i < inputs.len() {
                        subst(inputs[i], map)
                    } else {
                        formula
                    },
            ),
        ),
    }
}

/// Replaces every application of a definition by the definition's body, with the definition's
/// input variables bound to the (expanded) inputs; `fuel` bounds how deeply bodies are unfolded
/// inside bodies. An application of a definition that is not in the directory, or that is met
/// when no fuel is left, keeps its place with its inputs expanded.
pub open spec fn expand(formula: FormulaModel, directory: CheckableDirectory, fuel: nat) -> FormulaModel
    decreases fuel, formula,
{
    match formula {
        FormulaModel::Symbol(_) => formula,
        FormulaModel::Variable(_) => formula,
        FormulaModel::Application(function, input) => FormulaModel::Application(
            Box::new(expand(*function, directory, fuel)),
            Box::new(expand(*input, directory, fuel)),
        ),
        FormulaModel::Definition(d, inputs) => {
            let expanded_inputs = expand_all(inputs, directory, fuel);
            if fuel > 0 && directory.has_definition(d) {
                let definition = directory.definitions@[d.0 as int];
                subst(
                    expand(definition.expanded.model(), directory, (fuel - 1) as nat),
                    bind(
                        definition.inputs@,
                        expanded_inputs,
                        min_len(definition.inputs@.len(), expanded_inputs.len()),
                    ),
                )
            } else {
                FormulaModel::Definition(d, expanded_inputs)
            }
        },
    }
}

/// The expansions of a sequence of formulas, element by element.
pub open spec fn expand_all(
    formulas: Seq<FormulaModel>,
    directory: CheckableDirectory,
    fuel: nat,
) -> Seq<FormulaModel>
    decreases fuel, formulas,
{
    Seq::new(
        formulas.len(),
        |i: int|
            if 0 <= i < formulas.len() {
                expand(formulas[i], directory, fuel)
            } else {
                FormulaModel::Symbol(SymbolRef(0))
            },
    )
}

/// A formula with every definition unfolded, each definition being unfolded at most as deeply
/// as there are definitions.
pub open spec fn expansion(formula: FormulaModel, directory: CheckableDirectory) -> FormulaModel {
    expand(formula, directory, directory.definitions@.len())
}

/// Two formulas are compatible when they are equal once their definitions are unfolded.
pub open spec fn compatible(
    left: FormulaModel,
    right: FormulaModel,
    directory: CheckableDirectory,
) -> bool {
    expansion(left, directory) == expansion(right, directory)
}

/// The errors of a formula, depth first and left to right: every symbol, variable and
/// definition must exist, a function must be applied to an input of the type it takes, and a
/// definition must get as many inputs as it declares, each of the type it declares for it (the
/// inputs are not checked further).
pub open spec fn formula_errors(
    formula: FormulaModel,
    local_directory: LocalCheckableDirectory,
    directory: CheckableDirectory,
) -> Seq<FormulaCheckingError>
    decreases formula, 0nat,
{
    match formula {
        FormulaModel::Symbol(s) => if directory.has_symbol(s) {
            seq![]
        } else {
            seq![FormulaCheckingError::InvalidSymbolRef(s)]
        },
        FormulaModel::Variable(v) => if local_directory.has_variable(v) {
            seq![]
        } else {
            seq![FormulaCheckingError::InvalidVariableRef(v)]
        },
        FormulaModel::Application(function, input) => formula_errors(
            *function,
            local_directory,
            directory,
        ) + formula_errors(*input, local_directory, directory) + application_type_errors(
            *function,
            *input,
            local_directory,
            directory,
        ),
        FormulaModel::Definition(d, inputs) => definition_use_errors(d, inputs.len(), directory)
            + definition_inputs_type_errors(d, inputs, local_directory, directory),
    }
}

/// The type error of an application whose function and input have known types: the function's
/// type must be that of functions from the input's type.
pub open spec fn application_type_errors(
    function: FormulaModel,
    input: FormulaModel,
    local_directory: LocalCheckableDirectory,
    directory: CheckableDirectory,
) -> Seq<FormulaCheckingError> {
    match (formula_type(function, local_directory, directory), formula_type(input, local_directory, directory)) {
        (Some(f), Some(x)) => match f {
            TypeSignature::Compound(i, _) => if *i == x {
                seq![]
            } else {
                seq![FormulaCheckingError::ApplicationTypeMismatch]
            },
            TypeSignature::Ground(_) => seq![FormulaCheckingError::ApplicationTypeMismatch],
        },
        _ => seq![],
    }
}

/// The type of the `k`th input variable of a definition, where it names one of its variables.
pub open spec fn definition_input_type(definition: Definition, k: int) -> Option<TypeSignature> {
    let v = definition.inputs@[k];
    if definition.local_directory.has_variable(v) {
        Some(definition.local_directory.vars@[v.0 as int].type_signature)
    } else {
        None
    }
}

/// The type errors of the first `n` inputs given to a definition: each input must have a type, the
/// type of the definition's input variable at its place.
pub open spec fn input_type_errors(
    d: DefinitionRef,
    definition: Definition,
    inputs: Seq<FormulaModel>,
    local_directory: LocalCheckableDirectory,
    directory: CheckableDirectory,
    n: nat,
) -> Seq<FormulaCheckingError>
    decreases n,
{
    if n == 0 {
        seq![]
    } else {
        input_type_errors(d, definition, inputs, local_directory, directory, (n - 1) as nat) + match (
            formula_type(inputs[n - 1], local_directory, directory),
            definition_input_type(definition, n - 1),
        ) {
            (Some(t), Some(u)) => if t == u {
                seq![]
            } else {
                seq![FormulaCheckingError::DefinitionInputTypeMismatch(d, (n - 1) as usize)]
            },
            _ => seq![FormulaCheckingError::DefinitionInputTypeMismatch(d, (n - 1) as usize)],
        }
    }
}

/// The type errors of the inputs of a use of a definition that exists and gets as many inputs as
/// it declares.
pub open spec fn definition_inputs_type_errors(
    d: DefinitionRef,
    inputs: Seq<FormulaModel>,
    local_directory: LocalCheckableDirectory,
    directory: CheckableDirectory,
) -> Seq<FormulaCheckingError> {
    if directory.has_definition(d) && directory.definitions@[d.0 as int].inputs@.len() == inputs.len() {
        input_type_errors(
            d,
            directory.definitions@[d.0 as int],
            inputs,
            local_directory,
            directory,
            inputs.len(),
        )
    } else {
        seq![]
    }
}

/// The errors of a use of a definition with `n` inputs.
pub open spec fn definition_use_errors(
    d: DefinitionRef,
    n: nat,
    directory: CheckableDirectory,
) -> Seq<FormulaCheckingError> {
    if !directory.has_definition(d) {
        seq![FormulaCheckingError::InvalidDefinitionRef(d)]
    } else if directory.definitions@[d.0 as int].inputs@.len() != n {
        seq![FormulaCheckingError::DefinitionWrongArity(d)]
    } else {
        seq![]
    }
}

/// The type of a formula, where its references resolve: that of its symbol or variable, the
/// output type of a function that is applied, and the type of the body of a definition that is
/// used (see `type_with_fuel`).
pub open spec fn formula_type(
    formula: FormulaModel,
    local_directory: LocalCheckableDirectory,
    directory: CheckableDirectory,
) -> Option<TypeSignature> {
    type_with_fuel(formula, local_directory, directory, directory.definitions@.len())
}

/// The type of a formula, where `fuel` bounds how deeply the bodies of definitions are looked
/// into; a definition that is met when no fuel is left, as in a definition that uses itself, has
/// no type.
pub open spec fn type_with_fuel(
    formula: FormulaModel,
    local_directory: LocalCheckableDirectory,
    directory: CheckableDirectory,
    fuel: nat,
) -> Option<TypeSignature>
    decreases fuel, formula,
{
    match formula {
        FormulaModel::Symbol(s) => if directory.has_symbol(s) {
            Some(directory.symbols@[s.0 as int].type_signature)
        } else {
            None
        },
        FormulaModel::Variable(v) => if local_directory.has_variable(v) {
            Some(local_directory.vars@[v.0 as int].type_signature)
        } else {
            None
        },
        FormulaModel::Application(function, _) => match type_with_fuel(
            *function,
            local_directory,
            directory,
            fuel,
        ) {
            Some(TypeSignature::Compound(_, output)) => Some(*output),
            _ => None,
        },
        FormulaModel::Definition(d, _) => if fuel > 0 && directory.has_definition(d) {
            let definition = directory.definitions@[d.0 as int];
            type_with_fuel(definition.expanded.model(), definition.local_directory, directory, (fuel - 1) as nat)
        } else {
            None
        },
    }
}

/// The values of a sequence of formulas are those of its elements.
pub proof fn lemma_models_index(formulas: Seq<Formula>, j: int)
    requires
        0 <= j < formulas.len(),
    ensures
        models(formulas).len() == formulas.len(),
        models(formulas)[j] == formulas[j].model(),
{
}

pub proof fn lemma_models_index_len(formulas: Seq<Formula>)
    ensures
        models(formulas).len() == formulas.len(),
{
}

/// A sequence of formulas whose elements have the given values has those values.
pub proof fn lemma_models_pointwise(formulas: Seq<Formula>, values: Seq<FormulaModel>)
    requires
        formulas.len() == values.len(),
        forall|j: int| 0 <= j < formulas.len() ==> #[trigger] formulas[j].model() == values[j],
    ensures
        models(formulas) == values,
{
    assert forall|j: int| 0 <= j < formulas.len() implies #[trigger] models(formulas)[j] == values[j] by {
        lemma_models_index(formulas, j);
    }
    assert(models(formulas) =~= values);
}

impl Formula {
    pub open spec fn model(self) -> FormulaModel
        decreases self,
    {
        match self {
            Formula::Symbol(s) => FormulaModel::Symbol(s),
            Formula::Variable(v) => FormulaModel::Variable(v),
            Formula::Application(function, input) => FormulaModel::Application(
                Box::new(function.model()),
                Box::new(input.model()),
            ),
            Formula::Definition(d, inputs) => {
                proof {
                    vstd::std_specs::vec::axiom_vec_decreases_to_view(inputs);
                }
                FormulaModel::Definition(d, models(inputs@))
            },
        }
    }

    /// A copy of the formula.
    pub fn duplicate(&self) -> (r: Formula)
        ensures
            r.model() == self.model(),
        decreases self,
    {
        match self {
            Formula::Symbol(s) => Formula::Symbol(*s),
            Formula::Variable(v) => Formula::Variable(*v),
            Formula::Application(function, input) => Formula::Application(
                Box::new(function.duplicate()),
                Box::new(input.duplicate()),
            ),
            Formula::Definition(d, inputs) => {
                let mut out: Vec<Formula> = Vec::new();
                let mut i: usize = 0;
                while i < inputs.len()
                    invariant
                        i <= inputs@.len(),
                        *self == Formula::Definition(*d, *inputs),
                        out@.len() == i,
                        forall|j: int| 0 <= j < i ==> #[trigger] out@[j].model() == inputs@[j].model(),
                    decreases inputs@.len() - i,
                {
                    proof {
                        assert(decreases_to!(*self => (*self)->Definition_1));
                        vstd::std_specs::vec::axiom_vec_index_decreases(*inputs, i as int);
                    }
                    let g = inputs[i].duplicate();
                    out.push(g);
                    i = i + 1;
                }
                proof {
                    assert forall|j: int| 0 <= j < out@.len() implies #[trigger] out@[j].model() == models(inputs@)[j] by {
                        lemma_models_index(inputs@, j);
                    }
                    lemma_models_pointwise(out@, models(inputs@));
                }
                Formula::Definition(*d, out)
            },
        }
    }

    /// Whether two formulas are the same tree.
    pub fn equals(&self, other: &Formula) -> (r: bool)
        ensures
            r == (self.model() == other.model()),
        decreases self,
    {
        match (self, other) {
            (Formula::Symbol(a), Formula::Symbol(b)) => *a == *b,
            (Formula::Variable(a), Formula::Variable(b)) => *a == *b,
            (Formula::Application(f1, x1), Formula::Application(f2, x2)) => {
                f1.equals(f2) && x1.equals(x2)
            },
            (Formula::Definition(d1, in1), Formula::Definition(d2, in2)) => {
                if *d1 != *d2 || in1.len() != in2.len() {
                    proof {
                        assert(models(in1@).len() == in1@.len());
                        assert(models(in2@).len() == in2@.len());
                    }
                    return false;
                }
                let mut i: usize = 0;
                while i < in1.len()
                    invariant
                        i <= in1@.len(),
                        in1@.len() == in2@.len(),
                        *self == Formula::Definition(*d1, *in1),
                        *other == Formula::Definition(*d2, *in2),
                        *d1 == *d2,
                        forall|j: int| 0 <= j < i ==> #[trigger] in1@[j].model() == in2@[j].model(),
                    decreases in1@.len() - i,
                {
                    proof {
                        assert(decreases_to!(*self => (*self)->Definition_1));
                        vstd::std_specs::vec::axiom_vec_index_decreases(*in1, i as int);
                    }
                    if !in1[i].equals(&in2[i]) {
                        proof {
                            lemma_models_index(in1@, i as int);
                            lemma_models_index(in2@, i as int);
                            assert(models(in1@)[i as int] != models(in2@)[i as int]);
                        }
                        return false;
                    }
                    i = i + 1;
                }
                proof {
                    assert forall|j: int| 0 <= j < in1@.len() implies #[trigger] in1@[j].model() == models(in2@)[j] by {
                        lemma_models_index(in2@, j);
                    }
                    lemma_models_pointwise(in1@, models(in2@));
                }
                true
            },
            _ => false,
        }
    }

    pub fn symbol(&self) -> (r: Option<SymbolRef>)
        ensures
            r == (match self.model() {
                FormulaModel::Symbol(s) => Some(s),
                _ => None,
            }),
    {
        match self {
            Formula::Symbol(s) => Some(*s),
            _ => None,
        }
    }

    pub fn application(&self) -> (r: Option<(&Formula, &Formula)>)
        ensures
            r matches Some((function, input)) ==> *self == Formula::Application(
                Box::new(*function),
                Box::new(*input),
            ),
            r is None ==> !(self.model() is Application),
    {
        match self {
            Formula::Application(function, input) => Some((&**function, &**input)),
            _ => None,
        }
    }

    pub fn definition(&self) -> (r: Option<(DefinitionRef, &Vec<Formula>)>)
        ensures
            r matches Some((d, inputs)) ==> *self == Formula::Definition(d, *inputs),
            r is None ==> !(self.model() is Definition),
    {
        match self {
            Formula::Definition(d, inputs) => Some((*d, inputs)),
            _ => None,
        }
    }

    /// The errors of the formula, of references and of types (see `formula_errors`).
    pub fn verify(
        &self,
        local_directory: &LocalCheckableDirectory,
        directory: &CheckableDirectory,
    ) -> (r: Vec<FormulaCheckingError>)
        ensures
            r@ == formula_errors(self.model(), *local_directory, *directory),
        decreases self,
    {
        match self {
            Formula::Symbol(s) => {
                let mut errors = Vec::new();
                if !directory.contains_symbol(*s) {
                    errors.push(FormulaCheckingError::InvalidSymbolRef(*s));
                }
                errors
            },
            Formula::Variable(v) => {
                let mut errors = Vec::new();
                if !local_directory.contains_variable(*v) {
                    errors.push(FormulaCheckingError::InvalidVariableRef(*v));
                }
                errors
            },
            Formula::Application(function, input) => {
                let mut errors = function.verify(local_directory, directory);
                let mut rest = input.verify(local_directory, directory);
                errors.append(&mut rest);
                let function_type = function.type_signature(local_directory, directory);
                let input_type = input.type_signature(local_directory, directory);
                match (function_type, input_type) {
                    (Some(f), Some(x)) => match f {
                        TypeSignature::Compound(i, _) => {
                            if !i.equals(&x) {
                                errors.push(FormulaCheckingError::ApplicationTypeMismatch);
                            }
                        },
                        TypeSignature::Ground(_) => errors.push(FormulaCheckingError::ApplicationTypeMismatch),
                    },
                    _ => {},
                }
                errors
            },
            Formula::Definition(d, inputs) => {
                let mut errors = Vec::new();
                match directory.search_definition(*d) {
                    None => errors.push(FormulaCheckingError::InvalidDefinitionRef(*d)),
                    Some(definition) => {
                        if definition.inputs.len() != inputs.len() {
                            errors.push(FormulaCheckingError::DefinitionWrongArity(*d));
                        } else {
                            let ghost before = errors@;
                            let mut k: usize = 0;
                            while k < inputs.len()
                                invariant
                                    k <= inputs@.len(),
                                    inputs@.len() == definition.inputs@.len(),
                                    *definition == directory.definitions@[d.0 as int],
                                    errors@ == before + input_type_errors(
                                        *d,
                                        *definition,
                                        models(inputs@),
                                        *local_directory,
                                        *directory,
                                        k as nat,
                                    ),
                                decreases inputs@.len() - k,
                            {
                                proof {
                                    lemma_models_index(inputs@, k as int);
                                }
                                let t = inputs[k].type_signature(local_directory, directory);
                                let v = definition.inputs[k];
                                match (t, definition.local_directory.search_variable(v)) {
                                    (Some(t), Some(var)) => {
                                        if !t.equals(&var.type_signature) {
                                            errors.push(FormulaCheckingError::DefinitionInputTypeMismatch(*d, k));
                                        }
                                    },
                                    _ => errors.push(FormulaCheckingError::DefinitionInputTypeMismatch(*d, k)),
                                }
                                k = k + 1;
                            }
                            proof {
                                lemma_models_index_len(inputs@);
                            }
                        }
                    },
                }
                proof {
                    lemma_models_index_len(inputs@);
                }
                assert(errors@ == definition_use_errors(*d, inputs@.len(), *directory)
                    + definition_inputs_type_errors(*d, models(inputs@), *local_directory, *directory));
                errors
            },
        }
    }

    /// The type of the formula, where its references resolve (see `formula_type`).
    pub fn type_signature(
        &self,
        local_directory: &LocalCheckableDirectory,
        directory: &CheckableDirectory,
    ) -> (r: Option<TypeSignature>)
        ensures
            r == formula_type(self.model(), *local_directory, *directory),
    {
        self.type_with(local_directory, directory, directory.definitions.len())
    }

    /// The type of the formula, looking into the bodies of definitions at most `fuel` deep (see
    /// `type_with_fuel`).
    fn type_with(
        &self,
        local_directory: &LocalCheckableDirectory,
        directory: &CheckableDirectory,
        fuel: usize,
    ) -> (r: Option<TypeSignature>)
        ensures
            r == type_with_fuel(self.model(), *local_directory, *directory, fuel as nat),
        decreases fuel, self,
    {
        match self {
            Formula::Symbol(s) => match directory.search_symbol(*s) {
                Some(symbol) => Some(symbol.type_signature.duplicate()),
                None => None,
            },
            Formula::Variable(v) => match local_directory.search_variable(*v) {
                Some(variable) => Some(variable.type_signature.duplicate()),
                None => None,
            },
            Formula::Application(function, _) => match function.type_with(local_directory, directory, fuel) {
                Some(TypeSignature::Compound(_, output)) => Some(*output),
                _ => None,
            },
            Formula::Definition(d, _) => {
                if fuel == 0 {
                    return None;
                }
                match directory.search_definition(*d) {
                    Some(definition) => definition.expanded.type_with(&definition.local_directory, directory, fuel - 1),
                    None => None,
                }
            },
        }
    }

    /// The formula with each variable of `keys` replaced by the replacement at the same place
    /// (see `bind` and `subst`).
    pub fn substitute(&self, keys: &Vec<VariableRef>, values: &Vec<Formula>) -> (r: Formula)
        ensures
            r.model() == subst(
                self.model(),
                bind(keys@, models(values@), min_len(keys@.len(), values@.len())),
            ),
        decreases self,
    {
        let ghost map = bind(keys@, models(values@), min_len(keys@.len(), values@.len()));
        match self {
            Formula::Symbol(s) => Formula::Symbol(*s),
            Formula::Variable(v) => {
                let n = if keys.len() <= values.len() {
                    keys.len()
                } else {
                    values.len()
                };
                let mut j = n;
                while j > 0
                    invariant
                        j <= n,
                        *self == Formula::Variable(*v),
                        n == min_len(keys@.len(), values@.len()),
                        map == bind(keys@, models(values@), n as nat),
                        map.contains_key(*v) == bind(keys@, models(values@), j as nat).contains_key(
                            *v,
                        ),
                        map.contains_key(*v) ==> map[*v] == bind(
                            keys@,
                            models(values@),
                            j as nat,
                        )[*v],
                    decreases j,
                {
                    if keys[j - 1] == *v {
                        let r = values[j - 1].duplicate();
                        proof {
                            lemma_models_index(values@, j - 1);
                        }
                        return r;
                    }
                    j = j - 1;
                }
                Formula::Variable(*v)
            },
            Formula::Application(function, input) => Formula::Application(
                Box::new(function.substitute(keys, values)),
                Box::new(input.substitute(keys, values)),
            ),
            Formula::Definition(d, inputs) => {
                let mut out: Vec<Formula> = Vec::new();
                let mut i: usize = 0;
                while i < inputs.len()
                    invariant
                        i <= inputs@.len(),
                        *self == Formula::Definition(*d, *inputs),
                        map == bind(keys@, models(values@), min_len(keys@.len(), values@.len())),
                        out@.len() == i,
                        forall|j: int|
                            0 <= j < i ==> #[trigger] out@[j].model() == subst(
                                inputs@[j].model(),
                                map,
                            ),
                    decreases inputs@.len() - i,
                {
                    proof {
                        assert(decreases_to!(*self => (*self)->Definition_1));
                        vstd::std_specs::vec::axiom_vec_index_decreases(*inputs, i as int);
                    }
                    let g = inputs[i].substitute(keys, values);
                    out.push(g);
                    i = i + 1;
                }
                proof {
                    let expected = subst(self.model(), map);
                    assert forall|k: int| 0 <= k < out@.len() implies #[trigger] out@[k].model() == expected->Definition_1[k] by {
                        lemma_models_index(inputs@, k);
                    }
                    lemma_models_index_len(inputs@);
                    lemma_models_pointwise(out@, expected->Definition_1);
                }
                Formula::Definition(*d, out)
            },
        }
    }

    /// The formula with its definitions unfolded with the given fuel (see `expand`).
    pub fn expand_with(&self, directory: &CheckableDirectory, fuel: usize) -> (r: Formula)
        ensures
            r.model() == expand(self.model(), *directory, fuel as nat),
        decreases fuel, self,
    {
        match self {
            Formula::Symbol(s) => Formula::Symbol(*s),
            Formula::Variable(v) => Formula::Variable(*v),
            Formula::Application(function, input) => Formula::Application(
                Box::new(function.expand_with(directory, fuel)),
                Box::new(input.expand_with(directory, fuel)),
            ),
            Formula::Definition(d, inputs) => {
                let mut expanded_inputs: Vec<Formula> = Vec::new();
                let mut i: usize = 0;
                while i < inputs.len()
                    invariant
                        i <= inputs@.len(),
                        *self == Formula::Definition(*d, *inputs),
                        expanded_inputs@.len() == i,
                        forall|j: int|
                            0 <= j < i ==> #[trigger] expanded_inputs@[j].model() == expand(
                                inputs@[j].model(),
                                *directory,
                                fuel as nat,
                            ),
                    decreases inputs@.len() - i,
                {
                    proof {
                        assert(decreases_to!(*self => (*self)->Definition_1));
                        vstd::std_specs::vec::axiom_vec_index_decreases(*inputs, i as int);
                    }
                    let g = inputs[i].expand_with(directory, fuel);
                    expanded_inputs.push(g);
                    i = i + 1;
                }
                let ghost spec_inputs = expand_all(models(inputs@), *directory, fuel as nat);
                proof {
                    lemma_models_index_len(inputs@);
                    assert forall|k: int| 0 <= k < expanded_inputs@.len() implies #[trigger] expanded_inputs@[k].model() == spec_inputs[k] by {
                        lemma_models_index(inputs@, k);
                    }
                    lemma_models_pointwise(expanded_inputs@, spec_inputs);
                }
                if fuel > 0 && d.0 < directory.definitions.len() {
                    let definition = &directory.definitions[d.0];
                    let body = definition.expanded.expand_with(directory, fuel - 1);
                    let r = body.substitute(&definition.inputs, &expanded_inputs);
                    assert(r.model() == expand(self.model(), *directory, fuel as nat));
                    r
                } else {
                    let r = Formula::Definition(*d, expanded_inputs);
                    assert(r.model() == expand(self.model(), *directory, fuel as nat));
                    r
                }
            },
        }
    }

    /// The formula with its definitions unfolded (see `expansion`).
    pub fn expand_definitions(&self, directory: &CheckableDirectory) -> (r: Formula)
        ensures
            r.model() == expansion(self.model(), *directory),
    {
        self.expand_with(directory, directory.definitions.len())
    }

    /// Whether the two formulas are equal once their definitions are unfolded.
    pub fn compatible(&self, other: &Formula, directory: &CheckableDirectory) -> (r: bool)
        ensures
            r == compatible(self.model(), other.model(), *directory),
    {
        let left = self.expand_definitions(directory);
        let right = other.expand_definitions(directory);
        left.equals(&right)
    }
}

pub struct Definition {
    pub id: String,
    pub system_ref: SystemRef,
    pub local_directory: LocalCheckableDirectory,
    pub inputs: Vec<VariableRef>,
    pub type_signature: TypeSignature,
    pub expanded: Formula,
}

/// The errors of a definition: a missing system, then those of its variables, of its signature
/// and of its body; last, the declared signature must be the type of the body, where that is
/// known.
pub open spec fn definition_errors(definition: Definition, directory: CheckableDirectory) -> Seq<
    DefinitionCheckingError,
> {
    (if directory.has_system(definition.system_ref) {
        seq![]
    } else {
        seq![DefinitionCheckingError::InvalidSystemRef]
    }) + local_errors(
        definition.local_directory.vars@,
        directory,
        definition.local_directory.vars@.len(),
    ).map_values(|e: LocalCheckingError| DefinitionCheckingError::LocalError(e))
        + type_signature_errors(definition.type_signature, directory).map_values(
        |e: TypeSignatureCheckingError| DefinitionCheckingError::TypeSignatureError(e),
    ) + formula_errors(definition.expanded.model(), definition.local_directory, directory).map_values(
        |e: FormulaCheckingError| DefinitionCheckingError::ExpandedError(e),
    ) + match formula_type(definition.expanded.model(), definition.local_directory, directory) {
        Some(t) => if t == definition.type_signature {
            seq![]
        } else {
            seq![DefinitionCheckingError::ExpandedTypeMismatch]
        },
        None => seq![],
    }
}

fn definition_local_error(e: LocalCheckingError) -> (r: DefinitionCheckingError)
    ensures
        r == DefinitionCheckingError::LocalError(e),
{
    DefinitionCheckingError::LocalError(e)
}

fn definition_type_signature_error(e: TypeSignatureCheckingError) -> (r: DefinitionCheckingError)
    ensures
        r == DefinitionCheckingError::TypeSignatureError(e),
{
    DefinitionCheckingError::TypeSignatureError(e)
}

fn definition_expanded_error(e: FormulaCheckingError) -> (r: DefinitionCheckingError)
    ensures
        r == DefinitionCheckingError::ExpandedError(e),
{
    DefinitionCheckingError::ExpandedError(e)
}

impl Definition {
    /// The errors of the definition (see `definition_errors`).
    pub fn verify(&self, directory: &CheckableDirectory) -> (r: Vec<DefinitionCheckingError>)
        ensures
            r@ == definition_errors(*self, *directory),
    {
        let mut errors = Vec::new();
        if !directory.contains_system(self.system_ref) {
            errors.push(DefinitionCheckingError::InvalidSystemRef);
        }
        let local = self.local_directory.verify(directory);
        append_mapped(
            &mut errors,
            &local,
            definition_local_error,
            Ghost(|e: LocalCheckingError| DefinitionCheckingError::LocalError(e)),
        );
        let signature = self.type_signature.verify(directory);
        append_mapped(
            &mut errors,
            &signature,
            definition_type_signature_error,
            Ghost(|e: TypeSignatureCheckingError| DefinitionCheckingError::TypeSignatureError(e)),
        );
        let body = self.expanded.verify(&self.local_directory, directory);
        append_mapped(
            &mut errors,
            &body,
            definition_expanded_error,
            Ghost(|e: FormulaCheckingError| DefinitionCheckingError::ExpandedError(e)),
        );
        match self.expanded.type_signature(&self.local_directory, directory) {
            Some(t) => {
                if !t.equals(&self.type_signature) {
                    errors.push(DefinitionCheckingError::ExpandedTypeMismatch);
                }
            },
            None => {},
        }
        errors
    }

    pub fn new(
        id: String,
        system_ref: SystemRef,
        local_directory: LocalCheckableDirectory,
        inputs: Vec<VariableRef>,
        type_signature: TypeSignature,
        expanded: Formula,
    ) -> (r: Definition)
        ensures
            r.id == id,
            r.system_ref == system_ref,
            r.local_directory == local_directory,
            r.inputs == inputs,
            r.type_signature == type_signature,
            r.expanded == expanded,
    {
        Definition { id, system_ref, local_directory, inputs, type_signature, expanded }
    }

    /// The body of the definition with its input variables replaced by the given inputs.
    pub fn expand(&self, inputs: &Vec<Formula>) -> (r: Formula)
        ensures
            r.model() == subst(
                self.expanded.model(),
                bind(self.inputs@, models(inputs@), min_len(self.inputs@.len(), inputs@.len())),
            ),
    {
        self.expanded.substitute(&self.inputs, inputs)
    }
}

impl Type {
    /// Places the type in a system.
    pub fn set_system(&mut self, system_ref: SystemRef)
        ensures
            final(self).system_ref == system_ref,
            final(self).id == old(self).id,
    {
        self.system_ref = system_ref;
    }
}

impl Symbol {
    /// Places the symbol in a system.
    pub fn set_system(&mut self, system_ref: SystemRef)
        ensures
            final(self).system_ref == system_ref,
            final(self).id == old(self).id,
            final(self).type_signature == old(self).type_signature,
    {
        self.system_ref = system_ref;
    }

    /// Gives the symbol its type.
    pub fn set_type_signature(&mut self, type_signature: TypeSignature)
        ensures
            final(self).type_signature == type_signature,
            final(self).id == old(self).id,
            final(self).system_ref == old(self).system_ref,
    {
        self.type_signature = type_signature;
    }
}

impl Variable {
    /// Gives the variable its type.
    pub fn set_type_signature(&mut self, type_signature: TypeSignature)
        ensures
            final(self).type_signature == type_signature,
            final(self).id == old(self).id,
    {
        self.type_signature = type_signature;
    }
}

impl Definition {
    /// Places the definition in a system.
    pub fn set_system(&mut self, system_ref: SystemRef)
        ensures
            *final(self) == (Definition { system_ref, ..*old(self) }),
    {
        self.system_ref = system_ref;
    }

    /// Gives the definition its inputs, in order.
    pub fn set_inputs(&mut self, inputs: Vec<VariableRef>)
        ensures
            *final(self) == (Definition { inputs, ..*old(self) }),
    {
        self.inputs = inputs;
    }

    /// Gives the definition the formula it stands for.
    pub fn set_expanded(&mut self, expanded: Formula)
        ensures
            *final(self) == (Definition { expanded, ..*old(self) }),
    {
        self.expanded = expanded;
    }
}

} // verus!

