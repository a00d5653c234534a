use vstd::prelude::*;

use super::directory::{CheckableDirectory, VariableRef};
use super::language::{compatible, Formula, FormulaModel};

verus! {

/// The map that a list of bindings with distinct variables describes.
pub open spec fn entries_model(entries: Seq<(VariableRef, Formula)>) -> Map<VariableRef, FormulaModel> {
    Map::new(
        |k: VariableRef| exists|i: int| 0 <= i < entries.len() && entries[i].0 == k,
        |k: VariableRef|
            entries[choose|i: int| 0 <= i < entries.len() && entries[i].0 == k].1.model(),
    )
}

/// No variable is bound twice.
pub open spec fn distinct_keys(entries: Seq<(VariableRef, Formula)>) -> bool {
    forall|i: int, j: int|
        0 <= i < entries.len() && 0 <= j < entries.len() && i != j ==> entries[i].0 != entries[j].0
}

/// The value that a list of bindings with distinct variables gives a bound variable.
pub proof fn lemma_entries_model_index(entries: Seq<(VariableRef, Formula)>, i: int)
    requires
        distinct_keys(entries),
        0 <= i < entries.len(),
    ensures
        entries_model(entries).contains_key(entries[i].0),
        entries_model(entries)[entries[i].0] == entries[i].1.model(),
{
    let k = entries[i].0;
    assert(exists|j: int| 0 <= j < entries.len() && entries[j].0 == k);
    let j = choose|j: int| 0 <= j < entries.len() && entries[j].0 == k;
    assert(j == i);
}

/// Adding a binding for a fresh variable adds it to the map.
pub proof fn lemma_entries_model_push(
    entries: Seq<(VariableRef, Formula)>,
    k: VariableRef,
    f: Formula,
)
    requires
        distinct_keys(entries),
        !entries_model(entries).contains_key(k),
    ensures
        distinct_keys(entries.push((k, f))),
        entries_model(entries.push((k, f))) == entries_model(entries).insert(k, f.model()),
{
    let e2 = entries.push((k, f));
    assert forall|i: int, j: int|
        0 <= i < e2.len() && 0 <= j < e2.len() && i != j implies e2[i].0 != e2[j].0 by {
        if i < entries.len() && j < entries.len() {
        } else if i == entries.len() {
            assert(entries_model(entries).contains_key(entries[j].0));
        } else {
            assert(entries_model(entries).contains_key(entries[i].0));
        }
    }
    let m1 = entries_model(e2);
    let m2 = entries_model(entries).insert(k, f.model());
    assert forall|x: VariableRef| m1.contains_key(x) == m2.contains_key(x) by {
        if m1.contains_key(x) {
            let i = choose|i: int| 0 <= i < e2.len() && e2[i].0 == x;
            if i < entries.len() {
                assert(entries[i].0 == x);
            }
        }
        if entries_model(entries).contains_key(x) {
            let i = choose|i: int| 0 <= i < entries.len() && entries[i].0 == x;
            assert(e2[i].0 == x);
        }
        if x == k {
            assert(e2[entries.len() as int].0 == x);
        }
    }
    assert forall|x: VariableRef| m1.contains_key(x) implies m1[x] == m2[x] by {
        let i = choose|i: int| 0 <= i < e2.len() && e2[i].0 == x;
        lemma_entries_model_index(e2, i);
        if i < entries.len() {
            lemma_entries_model_index(entries, i);
        }
    }
    assert(m1 =~= m2);
}

/// An assignment of formulas to variables.
pub struct Substitution {
    pub entries: Vec<(VariableRef, Formula)>,
}

impl Substitution {
    pub open spec fn wf(&self) -> bool {
        distinct_keys(self.entries@)
    }

    pub open spec fn model(&self) -> Map<VariableRef, FormulaModel> {
        entries_model(self.entries@)
    }

    /// The substitution that binds nothing.
    pub fn empty() -> (r: Substitution)
        ensures
            r.wf(),
            r.model() == Map::<VariableRef, FormulaModel>::empty(),
    {
        let r = Substitution { entries: Vec::new() };
        assert(r.model() =~= Map::<VariableRef, FormulaModel>::empty());
        r
    }

    pub fn get(&self, variable_ref: VariableRef) -> (r: Option<&Formula>)
        requires
            self.wf(),
        ensures
            r matches Some(f) ==> self.model().contains_key(variable_ref) && f.model()
                == self.model()[variable_ref],
            r is None ==> !self.model().contains_key(variable_ref),
    {
        let mut i: usize = 0;
        while i < self.entries.len()
            invariant
                i <= self.entries@.len(),
                self.wf(),
                forall|j: int| 0 <= j < i ==> self.entries@[j].0 != variable_ref,
            decreases self.entries@.len() - i,
        {
            if self.entries[i].0 == variable_ref {
                proof {
                    lemma_entries_model_index(self.entries@, i as int);
                }
                return Some(&self.entries[i].1);
            }
            i = i + 1;
        }
        None
    }

    /// Binds a variable that is not bound yet.
    fn bind_fresh(&mut self, variable_ref: VariableRef, formula: Formula)
        requires
            old(self).wf(),
            !old(self).model().contains_key(variable_ref),
        ensures
            final(self).wf(),
            final(self).model() == old(self).model().insert(variable_ref, formula.model()),
    {
        proof {
            lemma_entries_model_push(self.entries@, variable_ref, formula);
        }
        self.entries.push((variable_ref, formula));
    }

    /// Binds a variable, replacing its binding if it has one.
    fn set(&mut self, variable_ref: VariableRef, formula: Formula)
        requires
            old(self).wf(),
        ensures
            final(self).wf(),
            final(self).model() == old(self).model().insert(variable_ref, formula.model()),
    {
        let ghost old_entries = self.entries@;
        let mut kept: Vec<(VariableRef, Formula)> = Vec::new();
        let mut i: usize = 0;
        while i < self.entries.len()
            invariant
                i <= self.entries@.len(),
                self.entries@ == old_entries,
                distinct_keys(old_entries),
                distinct_keys(kept@),
                forall|j: int| 0 <= j < kept@.len() ==> #[trigger] kept@[j].0 != variable_ref,
                entries_model(kept@) == entries_model(old_entries.take(i as int)).remove(
                    variable_ref,
                ),
            decreases self.entries@.len() - i,
        {
            let ghost before = kept@;
            proof {
                let t = old_entries.take(i as int);
                let t1 = old_entries.take(i + 1);
                assert(t1 == t.push(old_entries[i as int]));
                assert forall|a: int, b: int|
                    0 <= a < t1.len() && 0 <= b < t1.len() && a != b implies t1[a].0 != t1[b].0 by {
                }
                assert(distinct_keys(t));
                assert(!entries_model(t).contains_key(old_entries[i as int].0)) by {
                    if entries_model(t).contains_key(old_entries[i as int].0) {
                        let j = choose|j: int| 0 <= j < t.len() && t[j].0 == old_entries[i as int].0;
                        assert(old_entries[j].0 == old_entries[i as int].0);
                    }
                }
                lemma_entries_model_push(t, old_entries[i as int].0, old_entries[i as int].1);
            }
            if self.entries[i].0 != variable_ref {
                let copy = self.entries[i].1.duplicate();
                let key = self.entries[i].0;
                proof {
                    assert(!entries_model(kept@).contains_key(key)) by {
                        if entries_model(kept@).contains_key(key) {
                            assert(entries_model(old_entries.take(i as int)).contains_key(key));
                            let j = choose|j: int|
                                0 <= j < old_entries.take(i as int).len()
                                    && old_entries.take(i as int)[j].0 == key;
                            assert(old_entries[j].0 == old_entries[i as int].0);
                        }
                    }
                    lemma_entries_model_push(kept@, key, copy);
                    assert(entries_model(kept@.push((key, copy))) =~= entries_model(
                        old_entries.take(i + 1),
                    ).remove(variable_ref));
                }
                kept.push((key, copy));
            } else {
                proof {
                    assert(entries_model(kept@) =~= entries_model(old_entries.take(i + 1)).remove(
                        variable_ref,
                    ));
                }
            }
            i = i + 1;
        }
        proof {
            assert(old_entries.take(i as int) == old_entries);
            assert(!entries_model(kept@).contains_key(variable_ref)) by {
                if entries_model(kept@).contains_key(variable_ref) {
                    let j = choose|j: int| 0 <= j < kept@.len() && kept@[j].0 == variable_ref;
                    assert(kept@[j].0 != variable_ref);
                }
            }
            lemma_entries_model_push(kept@, variable_ref, formula);
            assert(entries_model(kept@).insert(variable_ref, formula.model()) =~= entries_model(
                old_entries,
            ).insert(variable_ref, formula.model()));
        }
        kept.push((variable_ref, formula));
        self.entries = kept;
    }

    /// A copy of the substitution.
    pub fn duplicate(&self) -> (r: Substitution)
        requires
            self.wf(),
        ensures
            r.wf(),
            r.model() == self.model(),
    {
        let mut r = Substitution::empty();
        let mut i: usize = 0;
        while i < self.entries.len()
            invariant
                i <= self.entries@.len(),
                self.wf(),
                r.wf(),
                r.model() == entries_model(self.entries@.take(i as int)),
            decreases self.entries@.len() - i,
        {
            let key = self.entries[i].0;
            let copy = self.entries[i].1.duplicate();
            proof {
                let t = self.entries@.take(i as int);
                assert(self.entries@.take(i + 1) == t.push(self.entries@[i as int]));
                assert(distinct_keys(t));
                assert(!entries_model(t).contains_key(key)) by {
                    if entries_model(t).contains_key(key) {
                        let j = choose|j: int| 0 <= j < t.len() && t[j].0 == key;
                        assert(self.entries@[j].0 == self.entries@[i as int].0);
                    }
                }
                lemma_entries_model_push(t, key, self.entries@[i as int].1);
            }
            r.bind_fresh(key, copy);
            i = i + 1;
        }
        proof {
            assert(self.entries@.take(i as int) == self.entries@);
        }
        r
    }
}

/// Matches `template` against `target`, extending the bindings `map`: a symbol matches the same
/// symbol, a variable matches anything compatible with what it is already bound to, and an
/// application or a definition matches one of the same shape part by part. The parts are taken
/// input before function, and the inputs of a definition from the last to the first.
pub open spec fn match_formula(
    template: FormulaModel,
    target: FormulaModel,
    map: Map<VariableRef, FormulaModel>,
    directory: CheckableDirectory,
) -> Option<Map<VariableRef, FormulaModel>>
    decreases template, 0nat,
{
    match template {
        FormulaModel::Symbol(s) => match target {
            FormulaModel::Symbol(t) => if s == t {
                Some(map)
            } else {
                None
            },
            _ => None,
        },
        FormulaModel::Variable(v) => if map.contains_key(v) {
            if compatible(map[v], target, directory) {
                Some(map)
            } else {
                None
            }
        } else {
            Some(map.insert(v, target))
        },
        FormulaModel::Application(function, input) => match target {
            FormulaModel::Application(target_function, target_input) => match match_formula(
                *input,
                *target_input,
                map,
                directory,
            ) {
                Some(map1) => match_formula(*function, *target_function, map1, directory),
                None => None,
            },
            _ => None,
        },
        FormulaModel::Definition(d, inputs) => match target {
            FormulaModel::Definition(e, target_inputs) => if d == e {
                match_inputs(
                    inputs,
                    target_inputs,
                    map,
                    directory,
                    if inputs.len() <= target_inputs.len() {
                        inputs.len()
                    } else {
                        target_inputs.len()
                    },
                )
            } else {
                None
            },
            _ => None,
        },
    }
}

/// Matches the first `n` templates against the first `n` targets, the last pair first.
pub open spec fn match_inputs(
    templates: Seq<FormulaModel>,
    targets: Seq<FormulaModel>,
    map: Map<VariableRef, FormulaModel>,
    directory: CheckableDirectory,
    n: nat,
) -> Option<Map<VariableRef, FormulaModel>>
    decreases templates, n,
{
    if n == 0 || n > templates.len() || n > targets.len() {
        Some(map)
    } else {
        match match_formula(templates[n - 1], targets[n - 1], map, directory) {
            Some(map1) => match_inputs(templates, targets, map1, directory, (n - 1) as nat),
            None => None,
        }
    }
}

/// Merging two substitutions succeeds when they agree, up to definitions, on every variable that
/// both bind; the result binds both, the second winning.
pub open spec fn merge_maps(
    left: Map<VariableRef, FormulaModel>,
    right: Map<VariableRef, FormulaModel>,
    directory: CheckableDirectory,
) -> Option<Map<VariableRef, FormulaModel>> {
    if forall|k: VariableRef|
        #![trigger right.contains_key(k), left.contains_key(k)]
        right.contains_key(k) && left.contains_key(k) ==> compatible(left[k], right[k], directory) {
        Some(left.union_prefer_right(right))
    } else {
        None
    }
}

/// Matches `template` against `target` and records the new bindings in `substitution`.
fn match_into(
    template: &Formula,
    target: &Formula,
    substitution: &mut Substitution,
    directory: &CheckableDirectory,
) -> (r: bool)
    requires
        old(substitution).wf(),
    ensures
        final(substitution).wf(),
        r == match_formula(template.model(), target.model(), old(substitution).model(), *directory) is Some,
        r ==> match_formula(template.model(), target.model(), old(substitution).model(), *directory)
            == Some(final(substitution).model()),
    decreases template,
{
    match template {
        Formula::Symbol(s) => match target.symbol() {
            Some(t) => *s == t,
            None => false,
        },
        Formula::Variable(v) => match substitution.get(*v) {
            Some(bound) => bound.compatible(target, directory),
            None => {
                let copy = target.duplicate();
                substitution.bind_fresh(*v, copy);
                true
            },
        },
        Formula::Application(function, input) => match target.application() {
            Some((target_function, target_input)) => {
                if !match_into(input, target_input, substitution, directory) {
                    return false;
                }
                match_into(function, target_function, substitution, directory)
            },
            None => false,
        },
        Formula::Definition(d, inputs) => match target.definition() {
            Some((e, target_inputs)) => {
                if *d != e {
                    return false;
                }
                let n = if inputs.len() <= target_inputs.len() {
                    inputs.len()
                } else {
                    target_inputs.len()
                };
                let ghost templates = super::language::models(inputs@);
                let ghost targets = super::language::models(target_inputs@);
                let ghost start = substitution.model();
                proof {
                    super::language::lemma_models_index_len(inputs@);
                    super::language::lemma_models_index_len(target_inputs@);
                }
                assert(match_formula(template.model(), target.model(), start, *directory)
                    == match_inputs(templates, targets, start, *directory, n as nat));
                let mut k = n;
                while k > 0
                    invariant
                        k <= n,
                        start == old(substitution).model(),
                        match_formula(template.model(), target.model(), start, *directory)
                            == match_inputs(templates, targets, start, *directory, n as nat),
                        n <= inputs@.len(),
                        n <= target_inputs@.len(),
                        *template == Formula::Definition(*d, *inputs),
                        templates == super::language::models(inputs@),
                        targets == super::language::models(target_inputs@),
                        templates.len() == inputs@.len(),
                        targets.len() == target_inputs@.len(),
                        substitution.wf(),
                        match_inputs(templates, targets, start, *directory, n as nat)
                            == match_inputs(
                            templates,
                            targets,
                            substitution.model(),
                            *directory,
                            k as nat,
                        ),
                    decreases k,
                {
                    proof {
                        assert(decreases_to!(*template => (*template)->Definition_1));
                        vstd::std_specs::vec::axiom_vec_index_decreases(*inputs, k - 1);
                        super::language::lemma_models_index(inputs@, k - 1);
                        super::language::lemma_models_index(target_inputs@, k - 1);
                    }
                    let ghost before = substitution.model();
                    if !match_into(&inputs[k - 1], &target_inputs[k - 1], substitution, directory) {
                        assert(match_inputs(templates, targets, before, *directory, k as nat) is None);
                        return false;
                    }
                    k = k - 1;
                }
                true
            },
            None => false,
        },
    }
}

impl Substitution {
    /// The bindings under which `template` becomes `target`, where there are any (see
    /// `match_formula`).
    pub fn new(template: &Formula, target: &Formula, directory: &CheckableDirectory) -> (r: Option<
        Substitution,
    >)
        ensures
            r is Some == match_formula(template.model(), target.model(), Map::empty(), *directory) is Some,
            r matches Some(s) ==> s.wf() && match_formula(
                template.model(),
                target.model(),
                Map::empty(),
                *directory,
            ) == Some(s.model()),
    {
        let mut substitution = Substitution::empty();
        if match_into(template, target, &mut substitution, directory) {
            Some(substitution)
        } else {
            None
        }
    }

    /// The union of two substitutions that agree, up to definitions, where both bind (see
    /// `merge_maps`).
    pub fn merge(&self, other: &Substitution, directory: &CheckableDirectory) -> (r: Option<
        Substitution,
    >)
        requires
            self.wf(),
            other.wf(),
        ensures
            r is Some == merge_maps(self.model(), other.model(), *directory) is Some,
            r matches Some(s) ==> s.wf() && merge_maps(self.model(), other.model(), *directory)
                == Some(s.model()),
    {
        let mut i: usize = 0;
        while i < other.entries.len()
            invariant
                i <= other.entries@.len(),
                self.wf(),
                other.wf(),
                forall|j: int|
                    0 <= j < i && self.model().contains_key(#[trigger] other.entries@[j].0)
                        ==> compatible(
                        self.model()[other.entries@[j].0],
                        other.entries@[j].1.model(),
                        *directory,
                    ),
            decreases other.entries@.len() - i,
        {
            let key = other.entries[i].0;
            match self.get(key) {
                Some(bound) => {
                    if !bound.compatible(&other.entries[i].1, directory) {
                        proof {
                            lemma_entries_model_index(other.entries@, i as int);
                            assert(other.model().contains_key(key));
                        }
                        return None;
                    }
                },
                None => {},
            }
            i = i + 1;
        }
        proof {
            assert forall|k: VariableRef|
                #![trigger other.model().contains_key(k), self.model().contains_key(k)]
                other.model().contains_key(k) && self.model().contains_key(k) implies compatible(
                self.model()[k],
                other.model()[k],
                *directory,
            ) by {
                let j = choose|j: int| 0 <= j < other.entries@.len() && other.entries@[j].0 == k;
                lemma_entries_model_index(other.entries@, j);
            }
        }
        let mut result = self.duplicate();
        let mut i: usize = 0;
        while i < other.entries.len()
            invariant
                i <= other.entries@.len(),
                other.wf(),
                result.wf(),
                result.model() == self.model().union_prefer_right(
                    entries_model(other.entries@.take(i as int)),
                ),
            decreases other.entries@.len() - i,
        {
            let key = other.entries[i].0;
            let copy = other.entries[i].1.duplicate();
            proof {
                let t = other.entries@.take(i as int);
                assert(other.entries@.take(i + 1) == t.push(other.entries@[i as int]));
                assert(distinct_keys(t));
                assert(!entries_model(t).contains_key(key)) by {
                    if entries_model(t).contains_key(key) {
                        let j = choose|j: int| 0 <= j < t.len() && t[j].0 == key;
                        assert(other.entries@[j].0 == other.entries@[i as int].0);
                    }
                }
                lemma_entries_model_push(t, key, other.entries@[i as int].1);
                assert(self.model().union_prefer_right(entries_model(t)).insert(key, copy.model())
                    =~= self.model().union_prefer_right(entries_model(t).insert(key, copy.model())));
            }
            result.set(key, copy);
            i = i + 1;
        }
        proof {
            assert(other.entries@.take(i as int) == other.entries@);
        }
        Some(result)
    }
}

/// The substitutions under which `template` becomes one of `targets`, in the order of the
/// targets.
pub open spec fn find_maps(
    template: FormulaModel,
    targets: Seq<FormulaModel>,
    directory: CheckableDirectory,
) -> Seq<Map<VariableRef, FormulaModel>>
    decreases targets.len(),
{
    if targets.len() == 0 {
        seq![]
    } else {
        find_maps(template, targets.drop_last(), directory) + match match_formula(
            template,
            targets.last(),
            Map::empty(),
            directory,
        ) {
            Some(m) => seq![m],
            None => seq![],
        }
    }
}

/// The successful merges of `left` with each of `rights`, in order.
pub open spec fn merge_with_each(
    left: Map<VariableRef, FormulaModel>,
    rights: Seq<Map<VariableRef, FormulaModel>>,
    directory: CheckableDirectory,
) -> Seq<Map<VariableRef, FormulaModel>>
    decreases rights.len(),
{
    if rights.len() == 0 {
        seq![]
    } else {
        merge_with_each(left, rights.drop_last(), directory) + match merge_maps(
            left,
            rights.last(),
            directory,
        ) {
            Some(m) => seq![m],
            None => seq![],
        }
    }
}

/// The successful merges of every pair taken from `lefts` and `rights`, the pairs ordered by
/// their left element first.
pub open spec fn merge_lists(
    lefts: Seq<Map<VariableRef, FormulaModel>>,
    rights: Seq<Map<VariableRef, FormulaModel>>,
    directory: CheckableDirectory,
) -> Seq<Map<VariableRef, FormulaModel>>
    decreases lefts.len(),
{
    if lefts.len() == 0 {
        seq![]
    } else {
        merge_lists(lefts.drop_last(), rights, directory) + merge_with_each(
            lefts.last(),
            rights,
            directory,
        )
    }
}

/// A list of alternative substitutions.
pub struct SubstitutionList {
    pub subs: Vec<Substitution>,
}

impl SubstitutionList {
    pub open spec fn wf(&self) -> bool {
        forall|i: int| 0 <= i < self.subs@.len() ==> #[trigger] self.subs@[i].wf()
    }

    pub open spec fn model(&self) -> Seq<Map<VariableRef, FormulaModel>> {
        Seq::new(self.subs@.len(), |i: int| self.subs@[i].model())
    }

    pub fn new(substitution: Substitution) -> (r: SubstitutionList)
        requires
            substitution.wf(),
        ensures
            r.wf(),
            r.model() == seq![substitution.model()],
    {
        let mut subs = Vec::new();
        subs.push(substitution);
        let r = SubstitutionList { subs };
        assert(r.model() =~= seq![substitution.model()]);
        r
    }

    /// The substitutions under which `template` becomes one of `possibilities` (see
    /// `find_maps`).
    pub fn find(
        template: &Formula,
        possibilities: &Vec<&Formula>,
        directory: &CheckableDirectory,
    ) -> (r: SubstitutionList)
        ensures
            r.wf(),
            r.model() == find_maps(
                template.model(),
                Seq::new(possibilities@.len(), |i: int| possibilities@[i].model()),
                *directory,
            ),
    {
        let ghost targets = Seq::new(possibilities@.len(), |i: int| possibilities@[i].model());
        let mut subs: Vec<Substitution> = Vec::new();
        let mut i: usize = 0;
        while i < possibilities.len()
            invariant
                i <= possibilities@.len(),
                targets == Seq::new(possibilities@.len(), |i: int| possibilities@[i].model()),
                forall|j: int| 0 <= j < subs@.len() ==> #[trigger] subs@[j].wf(),
                Seq::new(subs@.len(), |j: int| subs@[j].model()) == find_maps(
                    template.model(),
                    targets.take(i as int),
                    *directory,
                ),
            decreases possibilities@.len() - i,
        {
            let ghost before = subs@;
            proof {
                assert(targets.take(i + 1).drop_last() == targets.take(i as int));
                assert(targets.take(i + 1).last() == possibilities@[i as int].model());
            }
            match Substitution::new(template, possibilities[i], directory) {
                Some(s) => {
                    subs.push(s);
                    assert(Seq::new(subs@.len(), |j: int| subs@[j].model()) =~= Seq::new(
                        before.len(),
                        |j: int| before[j].model(),
                    ).push(s.model()));
                },
                None => {},
            }
            i = i + 1;
        }
        proof {
            assert(targets.take(i as int) == targets);
        }
        SubstitutionList { subs }
    }

    /// Every successful merge of a substitution of `self` with one of `other` (see
    /// `merge_lists`).
    pub fn merge(self, other: SubstitutionList, directory: &CheckableDirectory) -> (r:
        SubstitutionList)
        requires
            self.wf(),
            other.wf(),
        ensures
            r.wf(),
            r.model() == merge_lists(self.model(), other.model(), *directory),
    {
        let mut subs: Vec<Substitution> = Vec::new();
        let mut i: usize = 0;
        while i < self.subs.len()
            invariant
                i <= self.subs@.len(),
                self.wf(),
                other.wf(),
                forall|j: int| 0 <= j < subs@.len() ==> #[trigger] subs@[j].wf(),
                Seq::new(subs@.len(), |j: int| subs@[j].model()) == merge_lists(
                    self.model().take(i as int),
                    other.model(),
                    *directory,
                ),
            decreases self.subs@.len() - i,
        {
            let ghost at_row = subs@;
            let mut k: usize = 0;
            while k < other.subs.len()
                invariant
                    i < self.subs@.len(),
                    k <= other.subs@.len(),
                    self.wf(),
                    other.wf(),
                    forall|j: int| 0 <= j < subs@.len() ==> #[trigger] subs@[j].wf(),
                    Seq::new(subs@.len(), |j: int| subs@[j].model()) == merge_lists(
                        self.model().take(i as int),
                        other.model(),
                        *directory,
                    ) + merge_with_each(
                        self.subs@[i as int].model(),
                        other.model().take(k as int),
                        *directory,
                    ),
                decreases other.subs@.len() - k,
            {
                let ghost before = subs@;
                proof {
                    assert(other.model().take(k + 1).drop_last() == other.model().take(k as int));
                    assert(other.model().take(k + 1).last() == other.subs@[k as int].model());
                }
                match self.subs[i].merge(&other.subs[k], directory) {
                    Some(s) => {
                        subs.push(s);
                        assert(Seq::new(subs@.len(), |j: int| subs@[j].model()) =~= Seq::new(
                            before.len(),
                            |j: int| before[j].model(),
                        ).push(s.model()));
                    },
                    None => {},
                }
                k = k + 1;
            }
            proof {
                assert(other.model().take(k as int) == other.model());
                assert(self.model().take(i + 1).drop_last() == self.model().take(i as int));
                assert(self.model().take(i + 1).last() == self.subs@[i as int].model());
            }
            i = i + 1;
        }
        proof {
            assert(self.model().take(i as int) == self.model());
        }
        SubstitutionList { subs }
    }

    /// Whether no alternative is left.
    pub fn impossible(&self) -> (r: bool)
        ensures
            r == (self.model().len() == 0),
    {
        self.subs.len() == 0
    }
}

} // verus!
