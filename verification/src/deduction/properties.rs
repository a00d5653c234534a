use vstd::prelude::*;

use super::directory::{directory_check_errors, directory_errors, proof_checks_part, CheckableDirectory};
use super::errors::{flatten, lemma_flatten_empty};
use super::directory::VariableRef;
use super::language::{bind, compatible, expand, expand_all, expansion, min_len, subst, FormulaModel};
use super::substitution::{find_maps, match_formula, match_inputs, merge_lists, merge_maps, merge_with_each};
use super::system::{deduction, premise_merges, Deduction};
use super::system::{proof_check_errors, step_check_part, step_error, step_formulas};
use super::system::{ProofJustification, ProofStep};
use super::directory::{DefinitionRef, LocalCheckableDirectory};
use super::errors::{FormulaCheckingError, ProofStepCheckingError};
use super::language::{formula_errors, input_type_errors, Definition, Formula};

verus! {

/// Compatibility (equality up to definitions) is reflexive.
pub proof fn law_compatible_reflexive(f: FormulaModel, directory: CheckableDirectory)
    ensures
        compatible(f, f, directory),
{
}

/// Compatibility is symmetric.
pub proof fn law_compatible_symmetric(f: FormulaModel, g: FormulaModel, directory: CheckableDirectory)
    requires
        compatible(f, g, directory),
    ensures
        compatible(g, f, directory),
{
}

/// Compatibility is transitive.
pub proof fn law_compatible_transitive(
    f: FormulaModel,
    g: FormulaModel,
    h: FormulaModel,
    directory: CheckableDirectory,
)
    requires
        compatible(f, g, directory),
        compatible(g, h, directory),
    ensures
        compatible(f, h, directory),
{
}

/// A directory that checks without errors has no reference errors, and each of its proofs is
/// non-empty, ends with the assertion of its theorem, and has every step justified by the steps
/// before it.
pub proof fn law_clean_check_proves_every_theorem(directory: CheckableDirectory)
    requires
        directory_check_errors(directory).len() == 0,
    ensures
        directory_errors(directory).len() == 0,
        forall|i: int|
            0 <= i < directory.proofs@.len() ==> {
                let proof = #[trigger] directory.proofs@[i];
                let theorem = directory.theorems@[proof.theorem_ref.0 as int];
                &&& directory.has_theorem(proof.theorem_ref)
                &&& proof.steps@.len() > 0
                &&& proof.steps@.last().formula.model() == theorem.assertion.model()
                &&& forall|k: int|
                    0 <= k < proof.steps@.len() ==> step_error(
                        #[trigger] proof.steps@[k],
                        step_formulas(proof.steps@.take(k)),
                        theorem.premise@,
                        directory,
                    ) is None
            },
{
    let n = directory.proofs@.len();
    assert(directory_errors(directory).len() == 0);
    lemma_flatten_empty(n, proof_checks_part(directory));
    assert forall|i: int| 0 <= i < n implies {
        let proof = #[trigger] directory.proofs@[i];
        let theorem = directory.theorems@[proof.theorem_ref.0 as int];
        &&& directory.has_theorem(proof.theorem_ref)
        &&& proof.steps@.len() > 0
        &&& proof.steps@.last().formula.model() == theorem.assertion.model()
        &&& forall|k: int|
            0 <= k < proof.steps@.len() ==> step_error(
                #[trigger] proof.steps@[k],
                step_formulas(proof.steps@.take(k)),
                theorem.premise@,
                directory,
            ) is None
    } by {
        let proof = directory.proofs@[i];
        let theorem = directory.theorems@[proof.theorem_ref.0 as int];
        assert(proof_checks_part(directory)(i as nat).len() == 0);
        assert(proof_check_errors(proof, directory).len() == 0);
        super::directory::lemma_checkable_proofs(directory, i);
        let part = step_check_part(proof.steps@, theorem.premise@, directory);
        lemma_flatten_empty(proof.steps@.len(), part);
        assert forall|k: int| 0 <= k < proof.steps@.len() implies step_error(
            #[trigger] proof.steps@[k],
            step_formulas(proof.steps@.take(k)),
            theorem.premise@,
            directory,
        ) is None by {
            assert(part(k as nat).len() == 0);
        }
    }
}

/// Every definition that the formula applies exists and gets as many inputs as it declares.
pub open spec fn well_applied(f: FormulaModel, directory: CheckableDirectory) -> bool
    decreases f,
{
    match f {
        FormulaModel::Symbol(_) => true,
        FormulaModel::Variable(_) => true,
        FormulaModel::Application(function, input) => well_applied(*function, directory)
            && well_applied(*input, directory),
        FormulaModel::Definition(d, inputs) => {
            &&& directory.has_definition(d)
            &&& inputs.len() == directory.definitions@[d.0 as int].inputs@.len()
            &&& forall|i: int| 0 <= i < inputs.len() ==> well_applied(#[trigger] inputs[i], directory)
        },
    }
}

/// Every variable of the formula is bound by the map.
pub open spec fn bound_in(f: FormulaModel, map: Map<VariableRef, FormulaModel>) -> bool
    decreases f,
{
    match f {
        FormulaModel::Symbol(_) => true,
        FormulaModel::Variable(v) => map.contains_key(v),
        FormulaModel::Application(function, input) => bound_in(*function, map) && bound_in(
            *input,
            map,
        ),
        FormulaModel::Definition(_, inputs) => forall|i: int|
            0 <= i < inputs.len() ==> bound_in(#[trigger] inputs[i], map),
    }
}

/// Extending a map that binds every variable of a formula changes neither that nor what the
/// formula becomes under it.
pub proof fn lemma_subst_extension(
    f: FormulaModel,
    small: Map<VariableRef, FormulaModel>,
    large: Map<VariableRef, FormulaModel>,
)
    requires
        bound_in(f, small),
        small.submap_of(large),
    ensures
        bound_in(f, large),
        subst(f, small) == subst(f, large),
    decreases f,
{
    match f {
        FormulaModel::Symbol(_) => {},
        FormulaModel::Variable(v) => {},
        FormulaModel::Application(function, input) => {
            lemma_subst_extension(*function, small, large);
            lemma_subst_extension(*input, small, large);
        },
        FormulaModel::Definition(d, inputs) => {
            assert forall|i: int| 0 <= i < inputs.len() implies bound_in(#[trigger] inputs[i], large)
                && subst(inputs[i], small) == subst(inputs[i], large) by {
                lemma_subst_extension(inputs[i], small, large);
            }
            assert(subst(f, small)->Definition_1 =~= subst(f, large)->Definition_1);
        },
    }
}

/// What matching finds: the map only grows, binds every variable of the template, and turns the
/// template into a formula compatible with the target.
pub proof fn lemma_match_formula(
    t: FormulaModel,
    g: FormulaModel,
    map: Map<VariableRef, FormulaModel>,
    directory: CheckableDirectory,
)
    requires
        well_applied(t, directory),
        well_applied(g, directory),
        match_formula(t, g, map, directory) is Some,
    ensures
        ({
            let result = match_formula(t, g, map, directory)->Some_0;
            &&& map.submap_of(result)
            &&& bound_in(t, result)
            &&& expansion(subst(t, result), directory) == expansion(g, directory)
        }),
    decreases t, 0nat,
{
    let result = match_formula(t, g, map, directory)->Some_0;
    match t {
        FormulaModel::Symbol(_) => {
            assert(map.submap_of(result));
            assert(subst(t, result) == g);
        },
        FormulaModel::Variable(v) => {
            if map.contains_key(v) {
                assert(result == map);
            } else {
                assert(result == map.insert(v, g));
            }
            assert(map.submap_of(result));
            assert(bound_in(t, result));
            assert(expansion(subst(t, result), directory) == expansion(g, directory));
        },
        FormulaModel::Application(function, input) => {
            let gf = *g->Application_0;
            let gx = *g->Application_1;
            let map1 = match_formula(*input, gx, map, directory)->Some_0;
            lemma_match_formula(*input, gx, map, directory);
            lemma_match_formula(*function, gf, map1, directory);
            lemma_subst_extension(*input, map1, result);
            assert(map.submap_of(result)) by {
                assert forall|k: VariableRef| #[trigger] map.dom().contains(k) implies result.dom().contains(k) && map[k] == result[k] by {
                    assert(map1.contains_key(k));
                }
            }
        },
        FormulaModel::Definition(d, inputs) => {
            let targets = g->Definition_1;
            let n = inputs.len();
            lemma_match_inputs(inputs, targets, map, directory, n);
            let fuel = directory.definitions@.len();
            let left = subst(t, result);
            assert forall|i: int| 0 <= i < n implies #[trigger] expand_all(
                left->Definition_1,
                directory,
                fuel,
            )[i] == expand_all(targets, directory, fuel)[i] by {
                assert(expansion(subst(inputs[i], result), directory) == expansion(
                    targets[i],
                    directory,
                ));
            }
            assert(expand_all(left->Definition_1, directory, fuel) =~= expand_all(
                targets,
                directory,
                fuel,
            ));
        },
    }
}

/// Matching the first `n` inputs: the map only grows, and each of those templates is bound and
/// becomes compatible with its target.
pub proof fn lemma_match_inputs(
    ts: Seq<FormulaModel>,
    gs: Seq<FormulaModel>,
    map: Map<VariableRef, FormulaModel>,
    directory: CheckableDirectory,
    n: nat,
)
    requires
        n <= ts.len(),
        n <= gs.len(),
        forall|i: int| 0 <= i < n ==> well_applied(#[trigger] ts[i], directory),
        forall|i: int| 0 <= i < n ==> well_applied(#[trigger] gs[i], directory),
        match_inputs(ts, gs, map, directory, n) is Some,
    ensures
        ({
            let result = match_inputs(ts, gs, map, directory, n)->Some_0;
            &&& map.submap_of(result)
            &&& forall|i: int|
                0 <= i < n ==> bound_in(#[trigger] ts[i], result) && expansion(
                    subst(ts[i], result),
                    directory,
                ) == expansion(gs[i], directory)
        }),
    decreases ts, n,
{
    if n > 0 {
        let result = match_inputs(ts, gs, map, directory, n)->Some_0;
        let map1 = match_formula(ts[n - 1], gs[n - 1], map, directory)->Some_0;
        lemma_match_formula(ts[n - 1], gs[n - 1], map, directory);
        lemma_match_inputs(ts, gs, map1, directory, (n - 1) as nat);
        assert(result == match_inputs(ts, gs, map1, directory, (n - 1) as nat)->Some_0);
        lemma_subst_extension(ts[n - 1], map1, result);
        assert(map.submap_of(result)) by {
            assert(map.submap_of(map1));
            assert(map1.submap_of(result));
            assert forall|k: VariableRef| #[trigger] map.dom().contains(k) implies result.dom().contains(k) && map[k] == result[k] by {
                assert(map.dom().contains(k));
                assert(map1.dom().contains(k) && map1[k] == map[k]);
                assert(result.dom().contains(k) && result[k] == map1[k]);
            }
        }
        assert forall|i: int| 0 <= i < n implies bound_in(#[trigger] ts[i], result) && expansion(
            subst(ts[i], result),
            directory,
        ) == expansion(gs[i], directory) by {
            if i < n - 1 {
            } else {
                assert(i == n - 1);
            }
        }
    }
}

/// Soundness of matching: when a template and a target apply their definitions properly, the
/// substitution that matching finds turns the template into a formula that is equal to the
/// target once definitions are unfolded.
pub proof fn law_match_sound(
    template: FormulaModel,
    target: FormulaModel,
    directory: CheckableDirectory,
)
    requires
        well_applied(template, directory),
        well_applied(target, directory),
        match_formula(template, target, Map::empty(), directory) is Some,
    ensures
        compatible(
            subst(template, match_formula(template, target, Map::empty(), directory)->Some_0),
            target,
            directory,
        ),
{
    lemma_match_formula(template, target, Map::empty(), directory);
}

/// Every variable that `small` binds, `big` binds to a compatible formula.
pub open spec fn agrees(
    big: Map<VariableRef, FormulaModel>,
    small: Map<VariableRef, FormulaModel>,
    directory: CheckableDirectory,
) -> bool {
    forall|k: VariableRef|
        #[trigger] small.contains_key(k) ==> big.contains_key(k) && compatible(
            big[k],
            small[k],
            directory,
        )
}

/// Agreement is transitive.
pub proof fn lemma_agrees_transitive(
    a: Map<VariableRef, FormulaModel>,
    b: Map<VariableRef, FormulaModel>,
    c: Map<VariableRef, FormulaModel>,
    directory: CheckableDirectory,
)
    requires
        agrees(a, b, directory),
        agrees(b, c, directory),
    ensures
        agrees(a, c, directory),
{
    assert forall|k: VariableRef| #[trigger] c.contains_key(k) implies a.contains_key(k) && compatible(
        a[k],
        c[k],
        directory,
    ) by {
        assert(b.contains_key(k));
    }
}

/// Two maps that agree on the variables of a formula turn it into compatible formulas.
pub proof fn lemma_subst_agrees(
    f: FormulaModel,
    big: Map<VariableRef, FormulaModel>,
    small: Map<VariableRef, FormulaModel>,
    directory: CheckableDirectory,
)
    requires
        bound_in(f, small),
        agrees(big, small, directory),
    ensures
        expansion(subst(f, big), directory) == expansion(subst(f, small), directory),
    decreases f,
{
    match f {
        FormulaModel::Symbol(_) => {},
        FormulaModel::Variable(v) => {
            assert(small.contains_key(v));
        },
        FormulaModel::Application(function, input) => {
            lemma_subst_agrees(*function, big, small, directory);
            lemma_subst_agrees(*input, big, small, directory);
        },
        FormulaModel::Definition(d, inputs) => {
            let fuel = directory.definitions@.len();
            let l = subst(f, big)->Definition_1;
            let r = subst(f, small)->Definition_1;
            assert forall|i: int| 0 <= i < inputs.len() implies #[trigger] expand_all(
                l,
                directory,
                fuel,
            )[i] == expand_all(r, directory, fuel)[i] by {
                lemma_subst_agrees(inputs[i], big, small, directory);
            }
            assert(expand_all(l, directory, fuel) =~= expand_all(r, directory, fuel));
        },
    }
}

/// A successful merge agrees with both of the maps merged.
pub proof fn lemma_merge_agrees(
    left: Map<VariableRef, FormulaModel>,
    right: Map<VariableRef, FormulaModel>,
    directory: CheckableDirectory,
)
    requires
        merge_maps(left, right, directory) is Some,
    ensures
        agrees(merge_maps(left, right, directory)->Some_0, left, directory),
        agrees(merge_maps(left, right, directory)->Some_0, right, directory),
{
    let m = merge_maps(left, right, directory)->Some_0;
    assert forall|k: VariableRef| #[trigger] left.contains_key(k) implies m.contains_key(k) && compatible(
        m[k],
        left[k],
        directory,
    ) by {
        if right.contains_key(k) {
            assert(compatible(left[k], right[k], directory));
        }
    }
}

/// Each substitution that `find_maps` lists matches the template against one of the targets.
pub proof fn lemma_find_maps_member(
    template: FormulaModel,
    targets: Seq<FormulaModel>,
    directory: CheckableDirectory,
    x: Map<VariableRef, FormulaModel>,
)
    requires
        find_maps(template, targets, directory).contains(x),
    ensures
        exists|j: int|
            0 <= j < targets.len() && #[trigger] match_formula(
                template,
                targets[j],
                Map::empty(),
                directory,
            ) == Some(x),
    decreases targets.len(),
{
    let rest = find_maps(template, targets.drop_last(), directory);
    let last = match match_formula(template, targets.last(), Map::empty(), directory) {
        Some(m) => seq![m],
        None => seq![],
    };
    let i = choose|i: int| 0 <= i < (rest + last).len() && (rest + last)[i] == x;
    if i < rest.len() {
        assert(rest[i] == x);
        lemma_find_maps_member(template, targets.drop_last(), directory, x);
        let j = choose|j: int|
            0 <= j < targets.drop_last().len() && #[trigger] match_formula(
                template,
                targets.drop_last()[j],
                Map::empty(),
                directory,
            ) == Some(x);
        assert(targets[j] == targets.drop_last()[j]);
    } else {
        assert(match_formula(template, targets[targets.len() - 1], Map::empty(), directory) == Some(x));
    }
}

/// Each map that `merge_with_each` lists merges `left` with one of `rights`.
pub proof fn lemma_merge_with_each_member(
    left: Map<VariableRef, FormulaModel>,
    rights: Seq<Map<VariableRef, FormulaModel>>,
    directory: CheckableDirectory,
    x: Map<VariableRef, FormulaModel>,
)
    requires
        merge_with_each(left, rights, directory).contains(x),
    ensures
        exists|j: int|
            0 <= j < rights.len() && #[trigger] merge_maps(left, rights[j], directory) == Some(x),
    decreases rights.len(),
{
    let rest = merge_with_each(left, rights.drop_last(), directory);
    let last = match merge_maps(left, rights.last(), directory) {
        Some(m) => seq![m],
        None => seq![],
    };
    let i = choose|i: int| 0 <= i < (rest + last).len() && (rest + last)[i] == x;
    if i < rest.len() {
        assert(rest[i] == x);
        lemma_merge_with_each_member(left, rights.drop_last(), directory, x);
        let j = choose|j: int|
            0 <= j < rights.drop_last().len() && #[trigger] merge_maps(
                left,
                rights.drop_last()[j],
                directory,
            ) == Some(x);
        assert(rights[j] == rights.drop_last()[j]);
    } else {
        assert(merge_maps(left, rights[rights.len() - 1], directory) == Some(x));
    }
}

/// Each map that `merge_lists` lists merges one of `lefts` with one of `rights`.
pub proof fn lemma_merge_lists_member(
    lefts: Seq<Map<VariableRef, FormulaModel>>,
    rights: Seq<Map<VariableRef, FormulaModel>>,
    directory: CheckableDirectory,
    x: Map<VariableRef, FormulaModel>,
)
    requires
        merge_lists(lefts, rights, directory).contains(x),
    ensures
        exists|i: int, j: int|
            0 <= i < lefts.len() && 0 <= j < rights.len() && #[trigger] merge_maps(
                lefts[i],
                rights[j],
                directory,
            ) == Some(x),
    decreases lefts.len(),
{
    let rest = merge_lists(lefts.drop_last(), rights, directory);
    let last = merge_with_each(lefts.last(), rights, directory);
    let k = choose|k: int| 0 <= k < (rest + last).len() && (rest + last)[k] == x;
    if k < rest.len() {
        assert(rest[k] == x);
        lemma_merge_lists_member(lefts.drop_last(), rights, directory, x);
        let (i, j) = choose|i: int, j: int|
            0 <= i < lefts.drop_last().len() && 0 <= j < rights.len() && #[trigger] merge_maps(
                lefts.drop_last()[i],
                rights[j],
                directory,
            ) == Some(x);
        assert(lefts[i] == lefts.drop_last()[i]);
        assert(merge_maps(lefts[i], rights[j], directory) == Some(x));
    } else {
        assert(last[k - rest.len()] == x);
        lemma_merge_with_each_member(lefts.last(), rights, directory, x);
        let j = choose|j: int|
            0 <= j < rights.len() && #[trigger] merge_maps(lefts.last(), rights[j], directory) == Some(x);
        assert(merge_maps(lefts[lefts.len() - 1], rights[j], directory) == Some(x));
    }
}

/// Some earlier step matches the hypothesis with a substitution that `x` agrees with.
pub open spec fn supported(
    hypothesis: FormulaModel,
    previous: Seq<FormulaModel>,
    x: Map<VariableRef, FormulaModel>,
    directory: CheckableDirectory,
) -> bool {
    exists|j: int, m: Map<VariableRef, FormulaModel>|
        #![trigger match_formula(hypothesis, previous[j], Map::empty(), directory), agrees(x, m, directory)]
        0 <= j < previous.len() && match_formula(hypothesis, previous[j], Map::empty(), directory)
            == Some(m) && agrees(x, m, directory)
}

/// A substitution that survives the merges of the first `n` hypotheses agrees with the starting
/// one, and with a match of each of those hypotheses against some earlier step.
pub proof fn lemma_premise_merges_member(
    start: Map<VariableRef, FormulaModel>,
    premise: Seq<FormulaModel>,
    previous: Seq<FormulaModel>,
    directory: CheckableDirectory,
    n: nat,
    x: Map<VariableRef, FormulaModel>,
)
    requires
        n <= premise.len(),
        premise_merges(seq![start], premise, previous, directory, n).contains(x),
    ensures
        agrees(x, start, directory),
        forall|k: int| 0 <= k < n ==> supported(#[trigger] premise[k], previous, x, directory),
    decreases n,
{
    if n == 0 {
        assert(x == start);
    } else {
        let before = premise_merges(seq![start], premise, previous, directory, (n - 1) as nat);
        let found = find_maps(premise[n - 1], previous, directory);
        lemma_merge_lists_member(before, found, directory, x);
        let (i, j) = choose|i: int, j: int|
            0 <= i < before.len() && 0 <= j < found.len() && #[trigger] merge_maps(
                before[i],
                found[j],
                directory,
            ) == Some(x);
        assert(before.contains(before[i]));
        lemma_premise_merges_member(start, premise, previous, directory, (n - 1) as nat, before[i]);
        lemma_merge_agrees(before[i], found[j], directory);
        lemma_agrees_transitive(x, before[i], start, directory);
        assert(found.contains(found[j]));
        lemma_find_maps_member(premise[n - 1], previous, directory, found[j]);
        assert forall|k: int| 0 <= k < n implies supported(#[trigger] premise[k], previous, x, directory) by {
            if k < n - 1 {
                assert(supported(premise[k], previous, before[i], directory));
                let (j2, m2) = choose|j2: int, m2: Map<VariableRef, FormulaModel>|
                    #![trigger match_formula(premise[k], previous[j2], Map::empty(), directory), agrees(before[i], m2, directory)]
                    0 <= j2 < previous.len() && match_formula(
                        premise[k],
                        previous[j2],
                        Map::empty(),
                        directory,
                    ) == Some(m2) && agrees(before[i], m2, directory);
                lemma_agrees_transitive(x, before[i], m2, directory);
                assert(match_formula(premise[k], previous[j2], Map::empty(), directory) == Some(m2));
                assert(agrees(x, m2, directory));
            } else {
                let j3 = choose|j3: int|
                    0 <= j3 < previous.len() && #[trigger] match_formula(
                        premise[n - 1],
                        previous[j3],
                        Map::empty(),
                        directory,
                    ) == Some(found[j]);
                assert(match_formula(premise[k], previous[j3], Map::empty(), directory) == Some(found[j]));
                assert(agrees(x, found[j], directory));
            }
        }
    }
}

/// Soundness of deduction: when a step is justified by a statement, one substitution turns the
/// statement's assertion into a formula compatible with the step, and each of its hypotheses
/// into a formula compatible with some earlier step (all formulas applying their definitions
/// properly).
pub proof fn law_deduction_sound(
    premise: Seq<FormulaModel>,
    assertion: FormulaModel,
    formula: FormulaModel,
    previous: Seq<FormulaModel>,
    directory: CheckableDirectory,
)
    requires
        deduction(premise, assertion, formula, previous, directory) == Deduction::Justified,
        well_applied(assertion, directory),
        well_applied(formula, directory),
        forall|k: int| 0 <= k < premise.len() ==> well_applied(#[trigger] premise[k], directory),
        forall|j: int| 0 <= j < previous.len() ==> well_applied(#[trigger] previous[j], directory),
    ensures
        exists|sigma: Map<VariableRef, FormulaModel>|
            {
                &&& compatible(#[trigger] subst(assertion, sigma), formula, directory)
                &&& forall|k: int|
                    0 <= k < premise.len() ==> exists|j: int|
                        0 <= j < previous.len() && compatible(
                            #[trigger] subst(premise[k], sigma),
                            previous[j],
                            directory,
                        )
            },
{
    let start = match_formula(assertion, formula, Map::empty(), directory)->Some_0;
    let merged = premise_merges(seq![start], premise, previous, directory, premise.len());
    let sigma = merged[0];
    assert(merged.contains(sigma));
    lemma_premise_merges_member(start, premise, previous, directory, premise.len(), sigma);
    lemma_match_formula(assertion, formula, Map::empty(), directory);
    lemma_subst_agrees(assertion, sigma, start, directory);
    assert forall|k: int| 0 <= k < premise.len() implies exists|j: int|
        0 <= j < previous.len() && compatible(
            #[trigger] subst(premise[k], sigma),
            previous[j],
            directory,
        ) by {
        assert(supported(premise[k], previous, sigma, directory));
        let (j, m) = choose|j: int, m: Map<VariableRef, FormulaModel>|
            #![trigger match_formula(premise[k], previous[j], Map::empty(), directory), agrees(sigma, m, directory)]
            0 <= j < previous.len() && match_formula(
                premise[k],
                previous[j],
                Map::empty(),
                directory,
            ) == Some(m) && agrees(sigma, m, directory);
        lemma_match_formula(premise[k], previous[j], Map::empty(), directory);
        lemma_subst_agrees(premise[k], sigma, m, directory);
        assert(compatible(subst(premise[k], sigma), previous[j], directory));
    }
    assert(compatible(subst(assertion, sigma), formula, directory));
}

/// Whether a formula uses no definition.
pub open spec fn definition_free(formula: FormulaModel) -> bool
    decreases formula,
{
    match formula {
        FormulaModel::Symbol(_) => true,
        FormulaModel::Variable(_) => true,
        FormulaModel::Application(function, input) => definition_free(*function) && definition_free(*input),
        FormulaModel::Definition(_, _) => false,
    }
}

/// Whether every definition that a formula uses, at any depth, is in the directory.
pub open spec fn uses_defined(formula: FormulaModel, directory: CheckableDirectory) -> bool
    decreases formula,
{
    match formula {
        FormulaModel::Symbol(_) => true,
        FormulaModel::Variable(_) => true,
        FormulaModel::Application(function, input) => uses_defined(*function, directory) && uses_defined(
            *input,
            directory,
        ),
        FormulaModel::Definition(d, inputs) => d.0 < directory.definitions@.len() && forall|i: int|
            0 <= i < inputs.len() ==> uses_defined(#[trigger] inputs[i], directory),
    }
}

/// Whether every definition that a formula uses, at any depth, is in the directory and has a
/// rank below `n`.
pub open spec fn uses_ranked_below(
    formula: FormulaModel,
    directory: CheckableDirectory,
    rank: spec_fn(nat) -> nat,
    n: nat,
) -> bool
    decreases formula,
{
    match formula {
        FormulaModel::Symbol(_) => true,
        FormulaModel::Variable(_) => true,
        FormulaModel::Application(function, input) => uses_ranked_below(*function, directory, rank, n)
            && uses_ranked_below(*input, directory, rank, n),
        FormulaModel::Definition(d, inputs) => d.0 < directory.definitions@.len() && rank(d.0 as nat) < n
            && forall|i: int| 0 <= i < inputs.len() ==> uses_ranked_below(#[trigger] inputs[i], directory, rank, n),
    }
}

/// Whether `rank` shows that the definitions of a directory use one another without a cycle:
/// each definition has a rank below the number of definitions, and its body uses only
/// definitions of the directory of lower rank. (A finite set of definitions without a cycle has
/// such a ranking, its place in an order in which each definition follows those it uses.)
pub open spec fn definitions_acyclic_by(directory: CheckableDirectory, rank: spec_fn(nat) -> nat) -> bool {
    forall|k: int|
        0 <= k < directory.definitions@.len() ==> rank(k as nat) < directory.definitions@.len()
            && uses_ranked_below(#[trigger] directory.definitions@[k].expanded.model(), directory, rank, rank(k as nat))
}

proof fn lemma_ranked_grow(formula: FormulaModel, directory: CheckableDirectory, rank: spec_fn(nat) -> nat, m: nat, n: nat)
    requires
        uses_ranked_below(formula, directory, rank, m),
        m <= n,
    ensures
        uses_ranked_below(formula, directory, rank, n),
    decreases formula,
{
    match formula {
        FormulaModel::Application(function, input) => {
            lemma_ranked_grow(*function, directory, rank, m, n);
            lemma_ranked_grow(*input, directory, rank, m, n);
        },
        FormulaModel::Definition(d, inputs) => {
            assert forall|i: int| 0 <= i < inputs.len() implies uses_ranked_below(#[trigger] inputs[i], directory, rank, n) by {
                lemma_ranked_grow(inputs[i], directory, rank, m, n);
            }
        },
        _ => {},
    }
}

/// In a directory whose definitions have no cycle, the definitions that a formula uses all have
/// a rank below the number of definitions.
proof fn lemma_defined_ranked(formula: FormulaModel, directory: CheckableDirectory, rank: spec_fn(nat) -> nat)
    requires
        definitions_acyclic_by(directory, rank),
        uses_defined(formula, directory),
    ensures
        uses_ranked_below(formula, directory, rank, directory.definitions@.len()),
    decreases formula,
{
    match formula {
        FormulaModel::Application(function, input) => {
            lemma_defined_ranked(*function, directory, rank);
            lemma_defined_ranked(*input, directory, rank);
        },
        FormulaModel::Definition(d, inputs) => {
            assert(uses_ranked_below(directory.definitions@[d.0 as int].expanded.model(), directory, rank, rank(d.0 as nat)));
            assert forall|i: int| 0 <= i < inputs.len() implies uses_ranked_below(
                #[trigger] inputs[i],
                directory,
                rank,
                directory.definitions@.len(),
            ) by {
                lemma_defined_ranked(inputs[i], directory, rank);
            }
        },
        _ => {},
    }
}

/// Replacing variables by formulas without definitions leaves a formula without definitions
/// without them.
proof fn lemma_subst_free(formula: FormulaModel, map: Map<VariableRef, FormulaModel>)
    requires
        definition_free(formula),
        forall|k: VariableRef| map.contains_key(k) ==> definition_free(#[trigger] map[k]),
    ensures
        definition_free(subst(formula, map)),
    decreases formula,
{
    match formula {
        FormulaModel::Application(function, input) => {
            lemma_subst_free(*function, map);
            lemma_subst_free(*input, map);
        },
        _ => {},
    }
}

/// Pairing variables with formulas without definitions binds them to such formulas only.
proof fn lemma_bind_free(keys: Seq<VariableRef>, values: Seq<FormulaModel>, n: nat)
    requires
        n <= values.len(),
        n <= keys.len(),
        forall|j: int| 0 <= j < n ==> definition_free(#[trigger] values[j]),
    ensures
        forall|k: VariableRef| bind(keys, values, n).contains_key(k) ==> definition_free(#[trigger] bind(keys, values, n)[k]),
    decreases n,
{
    if n > 0 {
        lemma_bind_free(keys, values, (n - 1) as nat);
        let before = bind(keys, values, (n - 1) as nat);
        let after = bind(keys, values, n);
        assert(after == before.insert(keys[n - 1], values[n - 1]));
        assert forall|k: VariableRef| after.contains_key(k) implies definition_free(#[trigger] after[k]) by {
            if k != keys[n - 1] {
                assert(before.contains_key(k));
            }
        }
    }
}

/// Expanding a formula whose definitions have ranks below `fuel`, in a directory whose
/// definitions have no cycle, leaves no definition.
proof fn lemma_expand_free(formula: FormulaModel, directory: CheckableDirectory, rank: spec_fn(nat) -> nat, fuel: nat)
    requires
        definitions_acyclic_by(directory, rank),
        uses_ranked_below(formula, directory, rank, fuel),
    ensures
        definition_free(expand(formula, directory, fuel)),
    decreases fuel, formula,
{
    match formula {
        FormulaModel::Application(function, input) => {
            lemma_expand_free(*function, directory, rank, fuel);
            lemma_expand_free(*input, directory, rank, fuel);
        },
        FormulaModel::Definition(d, inputs) => {
            let expanded_inputs = expand_all(inputs, directory, fuel);
            assert forall|j: int| 0 <= j < expanded_inputs.len() implies definition_free(#[trigger] expanded_inputs[j]) by {
                assert(uses_ranked_below(inputs[j], directory, rank, fuel));
                lemma_expand_free(inputs[j], directory, rank, fuel);
            }
            let definition = directory.definitions@[d.0 as int];
            let body = definition.expanded.model();
            assert(uses_ranked_below(body, directory, rank, rank(d.0 as nat)));
            lemma_ranked_grow(body, directory, rank, rank(d.0 as nat), (fuel - 1) as nat);
            lemma_expand_free(body, directory, rank, (fuel - 1) as nat);
            let n = min_len(definition.inputs@.len(), expanded_inputs.len());
            lemma_bind_free(definition.inputs@, expanded_inputs, n);
            lemma_subst_free(expand(body, directory, (fuel - 1) as nat), bind(definition.inputs@, expanded_inputs, n));
        },
        _ => {},
    }
}

/// Expanding a formula without definitions leaves it as it is.
proof fn lemma_expand_free_unchanged(formula: FormulaModel, directory: CheckableDirectory, fuel: nat)
    requires
        definition_free(formula),
    ensures
        expand(formula, directory, fuel) == formula,
    decreases formula,
{
    match formula {
        FormulaModel::Application(function, input) => {
            lemma_expand_free_unchanged(*function, directory, fuel);
            lemma_expand_free_unchanged(*input, directory, fuel);
        },
        _ => {},
    }
}

/// Unfolding definitions (`Formula::expand_definitions`), in a directory whose definitions use
/// one another without a cycle (`rank` shows it), of a formula whose definitions are all in the
/// directory: the result uses no definition, unfolding it again changes nothing, and a formula
/// without definitions is left as it is.
pub proof fn law_expansion_unfolds_everything(
    formula: FormulaModel,
    directory: CheckableDirectory,
    rank: spec_fn(nat) -> nat,
)
    requires
        definitions_acyclic_by(directory, rank),
        uses_defined(formula, directory),
    ensures
        definition_free(expansion(formula, directory)),
        expansion(expansion(formula, directory), directory) == expansion(formula, directory),
        definition_free(formula) ==> expansion(formula, directory) == formula,
{
    lemma_defined_ranked(formula, directory, rank);
    lemma_expand_free(formula, directory, rank, directory.definitions@.len());
    lemma_expand_free_unchanged(expansion(formula, directory), directory, directory.definitions@.len());
    if definition_free(formula) {
        lemma_expand_free_unchanged(formula, directory, directory.definitions@.len());
    }
}


/// A step justified by unfolding a definition is accepted exactly when some earlier step is
/// equal to it once definitions are unfolded on both sides; otherwise its error is
/// `DefinitionMismatch`.
pub proof fn law_definition_step_accepts_compatible(
    step: ProofStep,
    previous: Seq<FormulaModel>,
    premise: Seq<Formula>,
    directory: CheckableDirectory,
)
    requires
        step.justification is Definition,
    ensures
        step_error(step, previous, premise, directory) is None <==> exists|j: int|
            0 <= j < previous.len() && expansion(#[trigger] previous[j], directory) == expansion(
                step.formula.model(),
                directory,
            ),
        step_error(step, previous, premise, directory) is Some ==> step_error(
            step,
            previous,
            premise,
            directory,
        ) == Some(ProofStepCheckingError::DefinitionMismatch),
{
}

/// In a directory whose definitions use one another without a cycle, a step that writes out an
/// earlier step with its definitions unfolded, justified by unfolding definitions, is accepted.
pub proof fn law_unfolding_step_accepted(
    step: ProofStep,
    previous: Seq<FormulaModel>,
    j: int,
    premise: Seq<Formula>,
    directory: CheckableDirectory,
    rank: spec_fn(nat) -> nat,
)
    requires
        step.justification is Definition,
        definitions_acyclic_by(directory, rank),
        0 <= j < previous.len(),
        uses_defined(previous[j], directory),
        step.formula.model() == expansion(previous[j], directory),
    ensures
        step_error(step, previous, premise, directory) is None,
{
    law_expansion_unfolds_everything(previous[j], directory, rank);
    assert(compatible(previous[j], step.formula.model(), directory));
}

/// A step justified by the hypothesis at place `h` of the theorem is accepted exactly when its
/// formula is that hypothesis; otherwise its error is `HypothesisMismatch`.
pub proof fn law_hypothesis_step_repeats_cited_hypothesis(
    step: ProofStep,
    previous: Seq<FormulaModel>,
    premise: Seq<Formula>,
    directory: CheckableDirectory,
    h: int,
)
    requires
        step.justification matches ProofJustification::Hypothesis(r) && r.0 == h,
        0 <= h < premise.len(),
    ensures
        step_error(step, previous, premise, directory) is None <==> step.formula.model()
            == premise[h].model(),
        step_error(step, previous, premise, directory) is Some ==> step_error(
            step,
            previous,
            premise,
            directory,
        ) == Some(ProofStepCheckingError::HypothesisMismatch),
{
}

proof fn lemma_input_type_errors_kind(
    d: DefinitionRef,
    definition: Definition,
    inputs: Seq<FormulaModel>,
    local_directory: LocalCheckableDirectory,
    directory: CheckableDirectory,
    n: nat,
)
    ensures
        forall|i: int|
            0 <= i < input_type_errors(d, definition, inputs, local_directory, directory, n).len()
                ==> #[trigger] input_type_errors(d, definition, inputs, local_directory, directory, n)[i]
                is DefinitionInputTypeMismatch,
    decreases n,
{
    if n > 0 {
        lemma_input_type_errors_kind(d, definition, inputs, local_directory, directory, (n - 1) as nat);
    }
}

/// A use of a definition that exists is reported as `DefinitionWrongArity` exactly when it gets
/// a different number of inputs than the definition declares, too many as well as too few; that
/// error is then the only one reported for the use.
pub proof fn law_definition_arity_checked(
    d: DefinitionRef,
    inputs: Seq<FormulaModel>,
    local_directory: LocalCheckableDirectory,
    directory: CheckableDirectory,
)
    requires
        directory.has_definition(d),
    ensures
        formula_errors(FormulaModel::Definition(d, inputs), local_directory, directory).contains(
            FormulaCheckingError::DefinitionWrongArity(d),
        ) <==> inputs.len() != directory.definitions@[d.0 as int].inputs@.len(),
        inputs.len() != directory.definitions@[d.0 as int].inputs@.len() ==> formula_errors(
            FormulaModel::Definition(d, inputs),
            local_directory,
            directory,
        ) == seq![FormulaCheckingError::DefinitionWrongArity(d)],
{
    let errors = formula_errors(FormulaModel::Definition(d, inputs), local_directory, directory);
    let definition = directory.definitions@[d.0 as int];
    if inputs.len() != definition.inputs@.len() {
        assert(errors =~= seq![FormulaCheckingError::DefinitionWrongArity(d)]);
        assert(errors[0] == FormulaCheckingError::DefinitionWrongArity(d));
    } else {
        let inner = input_type_errors(d, definition, inputs, local_directory, directory, inputs.len());
        lemma_input_type_errors_kind(d, definition, inputs, local_directory, directory, inputs.len());
        assert(errors =~= inner);
        if errors.contains(FormulaCheckingError::DefinitionWrongArity(d)) {
            let i = choose|i: int| 0 <= i < errors.len() && errors[i] == FormulaCheckingError::DefinitionWrongArity(d);
            assert(inner[i] is DefinitionInputTypeMismatch);
        }
    }
}

} // verus!
