//! Turning a formula as it was read into a formula that deduction checks: symbols and definitions,
//! which the builders know by the serial number of their block, become references to their place
//! among the symbols or definitions of the document.
use vstd::prelude::*;

use super::language::{DisplayFormulaBuilder, FormulaBuilder, ReadableBuilder, TypeSignatureBuilder, VariableBuilder};
use super::justification::{ProofBuilderSmallJustification, ProofBuilderSmallStep};
use super::language::DeductableBuilder;
use super::structure::{AxiomBuilder, DefinitionBuilder, SymbolBuilder, TheoremBuilder, TypeBuilder};
use crate::deduction::directory::{
    AxiomRef, CheckableDirectory, DefinitionRef, HypothesisRef, LocalCheckableDirectory, SymbolRef, SystemRef, TheoremRef, TypeRef, VariableRef,
};
use crate::deduction::language::{
    formula_type, models, Definition, Formula, FormulaModel, Symbol, Type, TypeSignature, Variable,
};
use crate::deduction::system::{Axiom, ProofJustification, ProofStep, Theorem};
use crate::str_equal;

verus! {

/// The first place of a serial number in a list, if it is there.
pub open spec fn position_in(serials: Seq<usize>, serial: usize) -> Option<nat>
    decreases serials.len(),
{
    if serials.len() == 0 {
        None
    } else {
        match position_in(serials.drop_last(), serial) {
            Some(p) => Some(p),
            None => if serials.last() == serial {
                Some((serials.len() - 1) as nat)
            } else {
                None
            },
        }
    }
}

/// Finds the first place of a serial number in a list.
pub fn position_of(serials: &Vec<usize>, serial: usize) -> (r: Option<usize>)
    ensures
        r matches Some(p) ==> position_in(serials@, serial) == Some(p as nat),
        r is None ==> position_in(serials@, serial) is None,
{
    let mut i: usize = 0;
    while i < serials.len()
        invariant
            i <= serials@.len(),
            position_in(serials@.take(i as int), serial) is None,
        decreases serials@.len() - i,
    {
        proof {
            assert(serials@.take(i + 1).drop_last() =~= serials@.take(i as int));
        }
        if serials[i] == serial {
            proof {
                lemma_position_prefix(serials@, i + 1, serial);
            }
            return Some(i);
        }
        i = i + 1;
    }
    proof {
        assert(serials@.take(i as int) =~= serials@);
    }
    None
}

/// Where a serial number is found in a prefix, it is found there in the whole list.
proof fn lemma_position_prefix(serials: Seq<usize>, n: int, serial: usize)
    requires
        0 <= n <= serials.len(),
        position_in(serials.take(n), serial) is Some,
    ensures
        position_in(serials, serial) == position_in(serials.take(n), serial),
    decreases serials.len() - n,
{
    if n < serials.len() {
        assert(serials.take(n + 1).drop_last() =~= serials.take(n));
        lemma_position_prefix(serials, n + 1, serial);
    } else {
        assert(serials.take(n) =~= serials);
    }
}

/// A symbol or definition applied to inputs, as deduction writes it: a symbol is applied to its
/// inputs one after the other, a definition takes them all at once. `None` where the symbol or
/// definition is not among those listed, by serial number, in `symbols` or `definitions`.
pub open spec fn applied_model(
    readable: ReadableBuilder,
    inputs: Seq<FormulaModel>,
    symbols: Seq<usize>,
    definitions: Seq<usize>,
) -> Option<FormulaModel> {
    match readable {
        ReadableBuilder::Symbol(s) => match position_in(symbols, s.0) {
            Some(p) => Some(apply_all(FormulaModel::Symbol(SymbolRef(p as usize)), inputs)),
            None => None,
        },
        ReadableBuilder::Definition(d) => match position_in(definitions, d.0) {
            Some(p) => Some(FormulaModel::Definition(DefinitionRef(p as usize), inputs)),
            None => None,
        },
    }
}

/// A function applied to inputs one after the other, from the first.
pub open spec fn apply_all(function: FormulaModel, inputs: Seq<FormulaModel>) -> FormulaModel
    decreases inputs.len(),
{
    if inputs.len() == 0 {
        function
    } else {
        FormulaModel::Application(Box::new(apply_all(function, inputs.drop_last())), Box::new(inputs.last()))
    }
}

/// The formula that deduction checks for a formula as it was read, with the symbols and the
/// definitions of the document listed by the serial numbers of their blocks; `None` where a
/// symbol or definition is not listed.
pub open spec fn checkable_model(
    formula: FormulaBuilder,
    symbols: Seq<usize>,
    definitions: Seq<usize>,
) -> Option<FormulaModel>
    decreases formula, 1nat,
{
    match formula {
        FormulaBuilder::Symbol(s) => match position_in(symbols, s.0) {
            Some(p) => Some(FormulaModel::Symbol(SymbolRef(p as usize))),
            None => None,
        },
        FormulaBuilder::Variable(v) => Some(FormulaModel::Variable(VariableRef(v.0))),
        FormulaBuilder::Prefix(r, inner) => match checkable_model(*inner, symbols, definitions) {
            Some(i) => applied_model(r, seq![i], symbols, definitions),
            None => None,
        },
        FormulaBuilder::Infix(r, lhs, rhs) => match (
            checkable_model(*lhs, symbols, definitions),
            checkable_model(*rhs, symbols, definitions),
        ) {
            (Some(l), Some(x)) => applied_model(r, seq![l, x], symbols, definitions),
            _ => None,
        },
        FormulaBuilder::ReadableApplication(r, inputs) => {
            proof {
                vstd::std_specs::vec::axiom_vec_decreases_to_view(inputs);
            }
            match checkable_models(inputs@, symbols, definitions) {
                Some(ins) => applied_model(r, ins, symbols, definitions),
                None => None,
            }
        },
    }
}

/// The formulas that deduction checks for a list of formulas, where every one of them has one.
pub open spec fn checkable_models(
    formulas: Seq<FormulaBuilder>,
    symbols: Seq<usize>,
    definitions: Seq<usize>,
) -> Option<Seq<FormulaModel>>
    decreases formulas, 0nat,
{
    if formulas.len() == 0 {
        Some(seq![])
    } else {
        match (
            checkable_models(formulas.drop_last(), symbols, definitions),
            checkable_model(formulas[formulas.len() - 1], symbols, definitions),
        ) {
            (Some(front), Some(last)) => Some(front.push(last)),
            _ => None,
        }
    }
}

/// A function applied to inputs one after the other (see `apply_all`).
fn apply_inputs(function: Formula, inputs: Vec<Formula>) -> (r: Formula)
    ensures
        r.model() == apply_all(function.model(), models(inputs@)),
{
    let ghost all = inputs@;
    let mut current = function;
    let mut rest = inputs;
    let total = rest.len();
    let mut k: usize = 0;
    proof {
        crate::deduction::language::lemma_models_index_len(all);
        assert(models(all).take(0) =~= Seq::<FormulaModel>::empty());
        assert(all.skip(0) =~= all);
    }
    while rest.len() > 0
        invariant
            k <= all.len(),
            all.len() == total,
            rest@ == all.skip(k as int),
            current.model() == apply_all(function.model(), models(all).take(k as int)),
            models(all).len() == all.len(),
        decreases all.len() - k,
    {
        let input = rest.remove(0);
        proof {
            assert(all.skip(k + 1) =~= all.skip(k as int).remove(0));
            assert(input == all[k as int]);
            crate::deduction::language::lemma_models_index(all, k as int);
            assert(models(all).take(k + 1).drop_last() =~= models(all).take(k as int));
        }
        current = Formula::Application(Box::new(current), Box::new(input));
        k = k + 1;
    }
    proof {
        assert(models(all).take(k as int) =~= models(all));
    }
    current
}

impl FormulaBuilder {
    /// The formula that deduction checks for this one (see `checkable_model`): `symbols` and
    /// `definitions` list the serial numbers of the symbol and definition blocks of the document
    /// in order, and a symbol or definition becomes a reference to its place among them.
    pub fn checkable(&self, symbols: &Vec<usize>, definitions: &Vec<usize>) -> (r: Option<Formula>)
        ensures
            r matches Some(f) ==> checkable_model(*self, symbols@, definitions@) == Some(f.model()),
            r is None ==> checkable_model(*self, symbols@, definitions@) is None,
        decreases self,
    {
        match self {
            FormulaBuilder::Symbol(s) => match position_of(symbols, s.0) {
                Some(p) => Some(Formula::Symbol(SymbolRef(p))),
                None => None,
            },
            FormulaBuilder::Variable(v) => Some(Formula::Variable(VariableRef(v.0))),
            FormulaBuilder::Prefix(r, inner) => match inner.checkable(symbols, definitions) {
                Some(i) => {
                    let mut ins: Vec<Formula> = Vec::new();
                    ins.push(i);
                    proof {
                        crate::deduction::language::lemma_models_index_len(ins@);
                        crate::deduction::language::lemma_models_index(ins@, 0);
                        assert(models(ins@) =~= seq![ins@[0].model()]);
                    }
                    applied(*r, ins, symbols, definitions)
                },
                None => None,
            },
            FormulaBuilder::Infix(r, lhs, rhs) => {
                let l = lhs.checkable(symbols, definitions);
                let x = rhs.checkable(symbols, definitions);
                match (l, x) {
                    (Some(l), Some(x)) => {
                        let mut ins: Vec<Formula> = Vec::new();
                        ins.push(l);
                        ins.push(x);
                        proof {
                            crate::deduction::language::lemma_models_index_len(ins@);
                            crate::deduction::language::lemma_models_index(ins@, 0);
                            crate::deduction::language::lemma_models_index(ins@, 1);
                            assert(models(ins@) =~= seq![ins@[0].model(), ins@[1].model()]);
                        }
                        applied(*r, ins, symbols, definitions)
                    },
                    _ => None,
                }
            },
            FormulaBuilder::ReadableApplication(r, inputs) => {
                let mut ins: Vec<Formula> = Vec::new();
                let mut i: usize = 0;
                while i < inputs.len()
                    invariant
                        i <= inputs@.len(),
                        *self == FormulaBuilder::ReadableApplication(*r, *inputs),
                        checkable_models(inputs@.take(i as int), symbols@, definitions@) == Some(models(ins@)),
                    decreases inputs@.len() - i,
                {
                    proof {
                        assert(decreases_to!(*self => (*self)->ReadableApplication_1));
                        vstd::std_specs::vec::axiom_vec_index_decreases(*inputs, i as int);
                        assert(inputs@.take(i + 1).drop_last() =~= inputs@.take(i as int));
                        assert(inputs@.take(i + 1)[i as int] == inputs@[i as int]);
                    }
                    match inputs[i].checkable(symbols, definitions) {
                        Some(f) => {
                            let ghost before = ins@;
                            ins.push(f);
                            proof {
                                assert(ins@.drop_last() =~= before);
                                crate::deduction::language::lemma_models_index_len(ins@);
                                crate::deduction::language::lemma_models_index_len(before);
                                assert forall|k: int| 0 <= k < ins@.len() implies models(ins@)[k] == models(before).push(f.model())[k] by {
                                    crate::deduction::language::lemma_models_index(ins@, k);
                                    if k < before.len() {
                                        crate::deduction::language::lemma_models_index(before, k);
                                    }
                                }
                                assert(models(ins@) =~= models(before).push(f.model()));
                            }
                        },
                        None => {
                            proof {
                                lemma_models_none(inputs@, i as int, symbols@, definitions@);
                            }
                            return None;
                        },
                    }
                    i = i + 1;
                }
                proof {
                    assert(inputs@.take(i as int) =~= inputs@);
                }
                applied(*r, ins, symbols, definitions)
            },
        }
    }
}

/// Where one formula of a list has no formula that deduction checks, the list has none.
proof fn lemma_models_none(formulas: Seq<FormulaBuilder>, i: int, symbols: Seq<usize>, definitions: Seq<usize>)
    requires
        0 <= i < formulas.len(),
        checkable_model(formulas[i], symbols, definitions) is None,
    ensures
        checkable_models(formulas, symbols, definitions) is None,
    decreases formulas.len(),
{
    if i < formulas.len() - 1 {
        assert(formulas.drop_last()[i] == formulas[i]);
        lemma_models_none(formulas.drop_last(), i, symbols, definitions);
    }
}

/// A symbol or definition applied to inputs (see `applied_model`).
fn applied(readable: ReadableBuilder, inputs: Vec<Formula>, symbols: &Vec<usize>, definitions: &Vec<usize>) -> (r: Option<
    Formula,
>)
    ensures
        r matches Some(f) ==> applied_model(readable, models(inputs@), symbols@, definitions@) == Some(f.model()),
        r is None ==> applied_model(readable, models(inputs@), symbols@, definitions@) is None,
{
    match readable {
        ReadableBuilder::Symbol(s) => match position_of(symbols, s.0) {
            Some(p) => Some(apply_inputs(Formula::Symbol(SymbolRef(p)), inputs)),
            None => None,
        },
        ReadableBuilder::Definition(d) => match position_of(definitions, d.0) {
            Some(p) => {
                let ghost ins = inputs@;
                let r = Formula::Definition(DefinitionRef(p), inputs);
                assert(r.model() == FormulaModel::Definition(DefinitionRef(p), models(ins)));
                Some(r)
            },
            None => None,
        },
    }
}

/// The first place, among the types of a document listed with the ids of their systems, of the
/// type `id` of the system `system_id`.
pub open spec fn type_position(types: Seq<(String, String)>, system_id: Seq<char>, id: Seq<char>) -> Option<nat>
    decreases types.len(),
{
    if types.len() == 0 {
        None
    } else {
        match type_position(types.drop_last(), system_id, id) {
            Some(p) => Some(p),
            None => if types.last().0@ == system_id && types.last().1@ == id {
                Some((types.len() - 1) as nat)
            } else {
                None
            },
        }
    }
}

proof fn lemma_type_position_prefix(types: Seq<(String, String)>, n: int, system_id: Seq<char>, id: Seq<char>)
    requires
        0 <= n <= types.len(),
        type_position(types.take(n), system_id, id) is Some,
    ensures
        type_position(types, system_id, id) == type_position(types.take(n), system_id, id),
    decreases types.len() - n,
{
    if n < types.len() {
        assert(types.take(n + 1).drop_last() =~= types.take(n));
        lemma_type_position_prefix(types, n + 1, system_id, id);
    } else {
        assert(types.take(n) =~= types);
    }
}

fn find_type(types: &Vec<(String, String)>, system_id: &str, id: &str) -> (r: Option<usize>)
    ensures
        r matches Some(p) ==> type_position(types@, system_id@, id@) == Some(p as nat),
        r is None ==> type_position(types@, system_id@, id@) is None,
{
    let mut i: usize = 0;
    while i < types.len()
        invariant
            i <= types@.len(),
            type_position(types@.take(i as int), system_id@, id@) is None,
        decreases types@.len() - i,
    {
        proof {
            assert(types@.take(i + 1).drop_last() =~= types@.take(i as int));
        }
        if str_equal(types[i].0.as_str(), system_id) && str_equal(types[i].1.as_str(), id) {
            proof {
                lemma_type_position_prefix(types@, i + 1, system_id@, id@);
            }
            return Some(i);
        }
        i = i + 1;
    }
    proof {
        assert(types@.take(i as int) =~= types@);
    }
    None
}

/// The type that deduction checks for a signature read in the system `system_id`: each type it
/// names becomes a reference to its place among the types of the document; `None` where a type
/// is not listed.
pub open spec fn signature_checkable(
    signature: TypeSignatureBuilder,
    system_id: Seq<char>,
    types: Seq<(String, String)>,
) -> Option<TypeSignature>
    decreases signature,
{
    match signature {
        TypeSignatureBuilder::Ground(g) => match type_position(types, system_id, g.id@) {
            Some(p) => Some(TypeSignature::Ground(TypeRef(p as usize))),
            None => None,
        },
        TypeSignatureBuilder::Compound(input, output) => match (
            signature_checkable(*input, system_id, types),
            signature_checkable(*output, system_id, types),
        ) {
            (Some(i), Some(o)) => Some(TypeSignature::Compound(Box::new(i), Box::new(o))),
            _ => None,
        },
    }
}

impl TypeSignatureBuilder {
    /// The type that deduction checks for this signature (see `signature_checkable`); `types`
    /// lists the types of the document in order, each with the id of its system.
    pub fn checkable(&self, system_id: &str, types: &Vec<(String, String)>) -> (r: Option<TypeSignature>)
        ensures
            r == signature_checkable(*self, system_id@, types@),
        decreases self,
    {
        match self {
            TypeSignatureBuilder::Ground(g) => match find_type(types, system_id, g.id.as_str()) {
                Some(p) => Some(TypeSignature::Ground(TypeRef(p))),
                None => None,
            },
            TypeSignatureBuilder::Compound(input, output) => {
                let i = input.checkable(system_id, types);
                let o = output.checkable(system_id, types);
                match (i, o) {
                    (Some(i), Some(o)) => Some(TypeSignature::Compound(Box::new(i), Box::new(o))),
                    _ => None,
                }
            },
        }
    }
}

/// The types that deduction checks for a list of variables, where each has one.
pub open spec fn vars_checkable(
    vars: Seq<VariableBuilder>,
    system_id: Seq<char>,
    types: Seq<(String, String)>,
) -> Option<Seq<TypeSignature>>
    decreases vars.len(),
{
    if vars.len() == 0 {
        Some(seq![])
    } else {
        match (
            vars_checkable(vars.drop_last(), system_id, types),
            signature_checkable(vars.last().type_signature, system_id, types),
        ) {
            (Some(front), Some(last)) => Some(front.push(last)),
            _ => None,
        }
    }
}

/// Whether deduction's variables are those written: the same ids, with these types.
pub open spec fn vars_agree(out: Seq<Variable>, vars: Seq<VariableBuilder>, types: Seq<TypeSignature>) -> bool {
    &&& out.len() == vars.len()
    &&& types.len() == vars.len()
    &&& forall|k: int| 0 <= k < out.len() ==> (#[trigger] out[k]).id@ == vars[k].id@ && out[k].type_signature == types[k]
}

/// The formulas of a list of displayed formulas.
pub open spec fn display_formulas(formulas: Seq<DisplayFormulaBuilder>) -> Seq<FormulaBuilder> {
    formulas.map_values(|d: DisplayFormulaBuilder| d.formula)
}

/// The variables that deduction checks for the variables of a statement, where each has one.
fn vars_to_checkable(vars: &Vec<VariableBuilder>, system_id: &str, types: &Vec<(String, String)>) -> (r: Option<
    Vec<Variable>,
>)
    ensures
        r matches Some(out) ==> vars_checkable(vars@, system_id@, types@) matches Some(ts) && vars_agree(out@, vars@, ts),
        r is None ==> vars_checkable(vars@, system_id@, types@) is None,
{
    let mut out: Vec<Variable> = Vec::new();
    let mut i: usize = 0;
    while i < vars.len()
        invariant
            i <= vars@.len(),
            vars_checkable(vars@.take(i as int), system_id@, types@) matches Some(ts) && vars_agree(
                out@,
                vars@.take(i as int),
                ts,
            ),
        decreases vars@.len() - i,
    {
        proof {
            assert(vars@.take(i + 1).drop_last() =~= vars@.take(i as int));
            assert(vars@.take(i + 1).last() == vars@[i as int]);
        }
        match vars[i].type_signature.checkable(system_id, types) {
            Some(t) => {
                let ghost ts = vars_checkable(vars@.take(i as int), system_id@, types@)->0;
                let ghost before = out@;
                out.push(Variable::new(vars[i].id.clone(), t));
                proof {
                    let ts2 = ts.push(t);
                    assert(vars_checkable(vars@.take(i + 1), system_id@, types@) == Some(ts2));
                    assert forall|k: int| 0 <= k < out@.len() implies (#[trigger] out@[k]).id@ == vars@.take(i + 1)[k].id@
                        && out@[k].type_signature == ts2[k] by {
                        if k < i {
                            assert(out@[k] == before[k]);
                            assert(vars@.take(i + 1)[k] == vars@.take(i as int)[k]);
                        }
                    }
                }
            },
            None => {
                proof {
                    lemma_vars_none(vars@, i as int, system_id@, types@);
                }
                return None;
            },
        }
        i = i + 1;
    }
    proof {
        assert(vars@.take(i as int) =~= vars@);
    }
    Some(out)
}

proof fn lemma_vars_none(vars: Seq<VariableBuilder>, i: int, system_id: Seq<char>, types: Seq<(String, String)>)
    requires
        0 <= i < vars.len(),
        signature_checkable(vars[i].type_signature, system_id, types) is None,
    ensures
        vars_checkable(vars, system_id, types) is None,
    decreases vars.len(),
{
    if i < vars.len() - 1 {
        assert(vars.drop_last()[i] == vars[i]);
        lemma_vars_none(vars.drop_last(), i, system_id, types);
    }
}

/// The formulas that deduction checks for a list of displayed formulas (see `checkable_models`).
fn formulas_to_checkable(formulas: &Vec<DisplayFormulaBuilder>, symbols: &Vec<usize>, definitions: &Vec<usize>) -> (r: Option<
    Vec<Formula>,
>)
    ensures
        r matches Some(out) ==> checkable_models(display_formulas(formulas@), symbols@, definitions@) == Some(models(out@)),
        r is None ==> checkable_models(display_formulas(formulas@), symbols@, definitions@) is None,
{
    let ghost all = display_formulas(formulas@);
    let mut out: Vec<Formula> = Vec::new();
    let mut i: usize = 0;
    while i < formulas.len()
        invariant
            i <= formulas@.len(),
            all == display_formulas(formulas@),
            checkable_models(all.take(i as int), symbols@, definitions@) == Some(models(out@)),
        decreases formulas@.len() - i,
    {
        proof {
            assert(all.take(i + 1).drop_last() =~= all.take(i as int));
            assert(all.take(i + 1)[i as int] == formulas@[i as int].formula);
        }
        match formulas[i].formula.checkable(symbols, definitions) {
            Some(f) => {
                let ghost before = out@;
                out.push(f);
                proof {
                    crate::deduction::language::lemma_models_index_len(out@);
                    crate::deduction::language::lemma_models_index_len(before);
                    assert forall|k: int| 0 <= k < out@.len() implies models(out@)[k] == models(before).push(f.model())[k] by {
                        crate::deduction::language::lemma_models_index(out@, k);
                        if k < before.len() {
                            crate::deduction::language::lemma_models_index(before, k);
                        }
                    }
                    assert(models(out@) =~= models(before).push(f.model()));
                }
            },
            None => {
                proof {
                    lemma_models_none(all, i as int, symbols@, definitions@);
                }
                return None;
            },
        }
        i = i + 1;
    }
    proof {
        assert(all.take(i as int) =~= all);
    }
    Some(out)
}

/// The formulas of the premise of a statement: those of its premise entry, if it has one.
pub open spec fn premise_formulas(premises: Seq<Vec<DisplayFormulaBuilder>>) -> Seq<FormulaBuilder> {
    if premises.len() == 0 {
        seq![]
    } else {
        display_formulas(premises[0]@)
    }
}

/// Whether what deduction checks for a statement (its variables, premise and assertion) is what
/// was written, where everything the statement names is listed: `None` exactly where something
/// is not.
pub open spec fn statement_agrees(
    r: Option<(LocalCheckableDirectory, Vec<Formula>, Formula)>,
    vars: Seq<VariableBuilder>,
    premises: Seq<Vec<DisplayFormulaBuilder>>,
    assertion: FormulaBuilder,
    system_id: Seq<char>,
    types: Seq<(String, String)>,
    symbols: Seq<usize>,
    definitions: Seq<usize>,
) -> bool {
    let ts = vars_checkable(vars, system_id, types);
    let ps = checkable_models(premise_formulas(premises), symbols, definitions);
    let a = checkable_model(assertion, symbols, definitions);
    match r {
        Some((local, premise, asserted)) => ts matches Some(ts) && vars_agree(local.vars@, vars, ts) && ps == Some(
            models(premise@),
        ) && a == Some(asserted.model()),
        None => ts is None || ps is None || a is None,
    }
}

fn statement_parts(
    vars: &Vec<VariableBuilder>,
    premises: &Vec<Vec<DisplayFormulaBuilder>>,
    assertions: &Vec<DisplayFormulaBuilder>,
    system_id: &str,
    types: &Vec<(String, String)>,
    symbols: &Vec<usize>,
    definitions: &Vec<usize>,
) -> (r: Option<(LocalCheckableDirectory, Vec<Formula>, Formula)>)
    requires
        assertions@.len() == 1,
    ensures
        statement_agrees(r, vars@, premises@, assertions@[0].formula, system_id@, types@, symbols@, definitions@),
{
    let locals = match vars_to_checkable(vars, system_id, types) {
        Some(v) => v,
        None => return None,
    };
    let premise = if premises.len() == 0 {
        let empty: Vec<DisplayFormulaBuilder> = Vec::new();
        proof {
            assert(display_formulas(empty@) =~= Seq::<FormulaBuilder>::empty());
            assert(premise_formulas(premises@) =~= Seq::<FormulaBuilder>::empty());
        }
        match formulas_to_checkable(&empty, symbols, definitions) {
            Some(p) => p,
            None => return None,
        }
    } else {
        match formulas_to_checkable(&premises[0], symbols, definitions) {
            Some(p) => p,
            None => return None,
        }
    };
    let asserted = match assertions[0].formula.checkable(symbols, definitions) {
        Some(a) => a,
        None => return None,
    };
    Some((LocalCheckableDirectory::new(locals), premise, asserted))
}

impl AxiomBuilder {
    /// The axiom that deduction checks for this block, whose structure was checked: its system is
    /// `system_ref`, its variables, premise and assertion are those written, with their types,
    /// symbols and definitions found by place (see `statement_agrees`).
    pub fn checkable(
        &self,
        system_ref: SystemRef,
        types: &Vec<(String, String)>,
        symbols: &Vec<usize>,
        definitions: &Vec<usize>,
    ) -> (r: Option<Axiom>)
        requires
            self.entries.assertions@.len() == 1,
        ensures
            statement_agrees(
                match r {
                    Some(a) => Some((a.local_directory, a.premise, a.assertion)),
                    None => None,
                },
                self.entries.vars@,
                self.entries.premises@,
                self.entries.assertions@[0].formula,
                self.system_id@,
                types@,
                symbols@,
                definitions@,
            ),
            r matches Some(a) ==> a.id@ == self.id@ && a.system_ref == system_ref,
    {
        match statement_parts(
            &self.entries.vars,
            &self.entries.premises,
            &self.entries.assertions,
            self.system_id.as_str(),
            types,
            symbols,
            definitions,
        ) {
            Some((local, premise, assertion)) => Some(Axiom::new(self.id.clone(), system_ref, local, premise, assertion)),
            None => None,
        }
    }
}

impl TheoremBuilder {
    /// The theorem that deduction checks for this block, whose structure was checked: its system
    /// is `system_ref`, its variables, premise and assertion are those written, with their types,
    /// symbols and definitions found by place (see `statement_agrees`).
    pub fn checkable(
        &self,
        system_ref: SystemRef,
        types: &Vec<(String, String)>,
        symbols: &Vec<usize>,
        definitions: &Vec<usize>,
    ) -> (r: Option<Theorem>)
        requires
            self.entries.assertions@.len() == 1,
        ensures
            statement_agrees(
                match r {
                    Some(t) => Some((t.local_directory, t.premise, t.assertion)),
                    None => None,
                },
                self.entries.vars@,
                self.entries.premises@,
                self.entries.assertions@[0].formula,
                self.system_id@,
                types@,
                symbols@,
                definitions@,
            ),
            r matches Some(t) ==> t.id@ == self.id@ && t.system_ref == system_ref,
    {
        match statement_parts(
            &self.entries.vars,
            &self.entries.premises,
            &self.entries.assertions,
            self.system_id.as_str(),
            types,
            symbols,
            definitions,
        ) {
            Some((local, premise, assertion)) => Some(Theorem::new(self.id.clone(), system_ref, local, premise, assertion)),
            None => None,
        }
    }
}

impl TypeBuilder {
    /// The type that deduction checks for this block, in the system at `system_ref`.
    pub fn checkable(&self, system_ref: SystemRef) -> (r: Type)
        ensures
            r.id@ == self.id@,
            r.system_ref == system_ref,
    {
        Type::new(self.id.clone(), system_ref)
    }
}

impl SymbolBuilder {
    /// The symbol that deduction checks for this block, whose structure was checked: in the
    /// system at `system_ref`, with the type written, its types found by place (see
    /// `signature_checkable`); `None` where a type is not listed.
    pub fn checkable(&self, system_ref: SystemRef, types: &Vec<(String, String)>) -> (r: Option<Symbol>)
        requires
            self.entries.type_signatures@.len() == 1,
        ensures
            r matches Some(s) ==> s.id@ == self.id@ && s.system_ref == system_ref && signature_checkable(
                self.entries.type_signatures@[0],
                self.system_id@,
                types@,
            ) == Some(s.type_signature),
            r is None ==> signature_checkable(self.entries.type_signatures@[0], self.system_id@, types@) is None,
    {
        match self.entries.type_signatures[0].checkable(self.system_id.as_str(), types) {
            Some(t) => Some(Symbol::new(self.id.clone(), system_ref, t)),
            None => None,
        }
    }
}

/// The justification that deduction checks for a small step: an axiom or theorem becomes a
/// reference to its place among the axioms or theorems of the document, listed by the serial
/// numbers of their blocks; premises, counted from one, are counted from zero. `None` where the
/// axiom or theorem is not listed.
pub open spec fn justification_checkable(
    justification: ProofBuilderSmallJustification,
    axioms: Seq<usize>,
    theorems: Seq<usize>,
) -> Option<ProofJustification> {
    match justification {
        ProofBuilderSmallJustification::Deductable(DeductableBuilder::Axiom(a)) => match position_in(axioms, a.0) {
            Some(p) => Some(ProofJustification::Axiom(AxiomRef(p as usize))),
            None => None,
        },
        ProofBuilderSmallJustification::Deductable(DeductableBuilder::Theorem(t)) => match position_in(theorems, t.0) {
            Some(p) => Some(ProofJustification::Theorem(TheoremRef(p as usize))),
            None => None,
        },
        ProofBuilderSmallJustification::Hypothesis(i) => Some(ProofJustification::Hypothesis(HypothesisRef((i - 1) as usize))),
        ProofBuilderSmallJustification::Definition => Some(ProofJustification::Definition),
    }
}

impl ProofBuilderSmallStep {
    /// The step that deduction checks for this small step: its justification (see
    /// `justification_checkable`) and its formula (see `checkable_model`); `None` where
    /// something it names is not listed.
    pub fn checkable(
        &self,
        axioms: &Vec<usize>,
        theorems: &Vec<usize>,
        symbols: &Vec<usize>,
        definitions: &Vec<usize>,
    ) -> (r: Option<ProofStep>)
        requires
            self.justification matches ProofBuilderSmallJustification::Hypothesis(i) ==> i > 0,
        ensures
            r matches Some(s) ==> justification_checkable(self.justification, axioms@, theorems@) == Some(s.justification)
                && checkable_model(self.formula, symbols@, definitions@) == Some(s.formula.model()),
            r is None ==> justification_checkable(self.justification, axioms@, theorems@) is None || checkable_model(
                self.formula,
                symbols@,
                definitions@,
            ) is None,
    {
        let justification = match &self.justification {
            ProofBuilderSmallJustification::Deductable(DeductableBuilder::Axiom(a)) => match position_of(axioms, a.0) {
                Some(p) => ProofJustification::Axiom(AxiomRef(p)),
                None => return None,
            },
            ProofBuilderSmallJustification::Deductable(DeductableBuilder::Theorem(t)) => match position_of(theorems, t.0) {
                Some(p) => ProofJustification::Theorem(TheoremRef(p)),
                None => return None,
            },
            ProofBuilderSmallJustification::Hypothesis(i) => ProofJustification::Hypothesis(HypothesisRef(*i - 1)),
            ProofBuilderSmallJustification::Definition => ProofJustification::Definition,
        };
        match self.formula.checkable(symbols, definitions) {
            Some(f) => Some(ProofStep::new(justification, f)),
            None => None,
        }
    }
}

/// The input variables of a definition, as written: those of its inputs entry, if it has one.
pub open spec fn definition_vars(inputs: Seq<Vec<VariableBuilder>>) -> Seq<VariableBuilder> {
    if inputs.len() == 0 {
        seq![]
    } else {
        inputs[0]@
    }
}

/// Whether the formula a definition stands for has no known type, whatever variables of the
/// written names and types the definition is given.
pub open spec fn expansion_type_unknown(
    vars: Seq<VariableBuilder>,
    ts: Seq<TypeSignature>,
    m: FormulaModel,
    directory: CheckableDirectory,
) -> bool {
    forall|local: LocalCheckableDirectory|
        vars_agree(local.vars@, vars, ts) ==> #[trigger] formula_type(m, local, directory) is None
}

/// The references to the first `n` variables, in order.
fn first_variables(n: usize) -> (r: Vec<VariableRef>)
    ensures
        r@.len() == n,
        forall|k: int| 0 <= k < n ==> #[trigger] r@[k] == VariableRef(k as usize),
{
    let mut out: Vec<VariableRef> = Vec::new();
    let mut k: usize = 0;
    while k < n
        invariant
            k <= n,
            out@.len() == k,
            forall|j: int| 0 <= j < k ==> #[trigger] out@[j] == VariableRef(j as usize),
        decreases n - k,
    {
        out.push(VariableRef(k));
        k = k + 1;
    }
    out
}

impl DefinitionBuilder {
    /// The definition that deduction checks for this block, whose structure was checked, in the
    /// system at `system_ref`: its input variables with their types found by place (see
    /// `vars_checkable`), which are also its inputs in order, the formula it stands for (see
    /// `checkable_model`), and the type of that formula in `directory`, which holds the symbols
    /// and the definitions before it. `None` where something it names is not listed, or the type
    /// of the formula is not known.
    pub fn checkable(
        &self,
        system_ref: SystemRef,
        types: &Vec<(String, String)>,
        symbols: &Vec<usize>,
        definitions: &Vec<usize>,
        directory: &CheckableDirectory,
    ) -> (r: Option<Definition>)
        requires
            self.entries.expansions@.len() == 1,
        ensures
            r matches Some(d) ==> {
                &&& d.id@ == self.id@
                &&& d.system_ref == system_ref
                &&& vars_checkable(definition_vars(self.entries.inputs@), self.system_id@, types@) matches Some(ts)
                    && vars_agree(d.local_directory.vars@, definition_vars(self.entries.inputs@), ts)
                &&& d.inputs@.len() == definition_vars(self.entries.inputs@).len()
                &&& forall|k: int| 0 <= k < d.inputs@.len() ==> #[trigger] d.inputs@[k] == VariableRef(k as usize)
                &&& checkable_model(self.entries.expansions@[0].formula, symbols@, definitions@) == Some(d.expanded.model())
                &&& formula_type(d.expanded.model(), d.local_directory, *directory) == Some(d.type_signature)
            },
            r is None ==> match (
                vars_checkable(definition_vars(self.entries.inputs@), self.system_id@, types@),
                checkable_model(self.entries.expansions@[0].formula, symbols@, definitions@),
            ) {
                (Some(ts), Some(m)) => expansion_type_unknown(definition_vars(self.entries.inputs@), ts, m, *directory),
                _ => true,
            },
    {
        let empty: Vec<VariableBuilder> = Vec::new();
        let vars = if self.entries.inputs.len() == 0 {
            &empty
        } else {
            &self.entries.inputs[0]
        };
        assert(vars@ == definition_vars(self.entries.inputs@));
        let locals = match vars_to_checkable(vars, self.system_id.as_str(), types) {
            Some(v) => v,
            None => return None,
        };
        let expanded = match self.entries.expansions[0].formula.checkable(symbols, definitions) {
            Some(f) => f,
            None => return None,
        };
        let inputs = first_variables(locals.len());
        let local = LocalCheckableDirectory::new(locals);
        match expanded.type_signature(&local, directory) {
            Some(t) => Some(Definition::new(self.id.clone(), system_ref, local, inputs, t, expanded)),
            None => {
                proof {
                    let ts = vars_checkable(definition_vars(self.entries.inputs@), self.system_id@, types@)->0;
                    assert forall|other: LocalCheckableDirectory|
                        vars_agree(other.vars@, definition_vars(self.entries.inputs@), ts) implies #[trigger] formula_type(
                        expanded.model(),
                        other,
                        *directory,
                    ) is None by {
                        lemma_type_same_vars(expanded.model(), local, other, *directory);
                    }
                }
                None
            },
        }
    }
}

/// The type of a formula depends on the variables of its block only through their types.
proof fn lemma_type_same_vars(
    formula: FormulaModel,
    a: LocalCheckableDirectory,
    b: LocalCheckableDirectory,
    directory: CheckableDirectory,
)
    requires
        a.vars@.len() == b.vars@.len(),
        forall|k: int| 0 <= k < a.vars@.len() ==> (#[trigger] a.vars@[k]).type_signature == b.vars@[k].type_signature,
    ensures
        formula_type(formula, a, directory) == formula_type(formula, b, directory),
    decreases formula,
{
    match formula {
        FormulaModel::Application(function, _) => {
            lemma_type_same_vars(*function, a, b, directory);
        },
        FormulaModel::Variable(v) => {
            if a.has_variable(v) {
                assert(a.vars@[v.0 as int].type_signature == b.vars@[v.0 as int].type_signature);
            }
        },
        _ => {},
    }
}

} // verus!
