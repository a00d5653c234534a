use vstd::prelude::*;

use super::errors::{
    append_tagged, flatten, lemma_flatten_empty, AxiomCheckingError, CheckingError,
    CheckingErrorContext, DefinitionCheckingError, LocalCheckingError, ProofCheckingError,
    SymbolCheckingError, TheoremCheckingError, TypeCheckingError, VariableCheckingError,
};
use super::language::{
    definition_errors, symbol_errors, type_errors, variable_errors, Definition, Symbol, Type,
    Variable,
};
use super::system::{
    axiom_errors, lemma_proof_checkable, proof_check_errors, proof_errors, theorem_errors, Axiom,
    Proof, System, Theorem,
};

verus! {

#[derive(Clone, Copy, PartialEq, Eq, Debug, Structural)]
pub struct SystemRef(pub usize);

impl SystemRef {
    pub fn new(i: usize) -> (r: SystemRef)
        ensures
            r.0 == i,
    {
        SystemRef(i)
    }
}

#[derive(Clone, Copy, PartialEq, Eq, Debug, Structural)]
pub struct TypeRef(pub usize);

impl TypeRef {
    pub fn new(i: usize) -> (r: TypeRef)
        ensures
            r.0 == i,
    {
        TypeRef(i)
    }
}

#[derive(Clone, Copy, PartialEq, Eq, Debug, Structural)]
pub struct SymbolRef(pub usize);

impl SymbolRef {
    pub fn new(i: usize) -> (r: SymbolRef)
        ensures
            r.0 == i,
    {
        SymbolRef(i)
    }
}

#[derive(Clone, Copy, PartialEq, Eq, Debug, Structural)]
pub struct DefinitionRef(pub usize);

impl DefinitionRef {
    pub fn new(i: usize) -> (r: DefinitionRef)
        ensures
            r.0 == i,
    {
        DefinitionRef(i)
    }
}

#[derive(Clone, Copy, PartialEq, Eq, Hash, Debug, Structural)]
pub struct VariableRef(pub usize);

impl VariableRef {
    pub fn new(i: usize) -> (r: VariableRef)
        ensures
            r.0 == i,
    {
        VariableRef(i)
    }
}

#[derive(Clone, Copy, PartialEq, Eq, Debug, Structural)]
pub struct AxiomRef(pub usize);

impl AxiomRef {
    pub fn new(i: usize) -> (r: AxiomRef)
        ensures
            r.0 == i,
    {
        AxiomRef(i)
    }
}

#[derive(Clone, Copy, PartialEq, Eq, Debug, Structural)]
pub struct TheoremRef(pub usize);

impl TheoremRef {
    pub fn new(i: usize) -> (r: TheoremRef)
        ensures
            r.0 == i,
    {
        TheoremRef(i)
    }
}

#[derive(Clone, Copy, PartialEq, Eq, Debug, Structural)]
pub struct HypothesisRef(pub usize);

impl HypothesisRef {
    pub fn new(i: usize) -> (r: HypothesisRef)
        ensures
            r.0 == i,
    {
        HypothesisRef(i)
    }
}

#[derive(Clone, Copy, PartialEq, Eq, Debug, Structural)]
pub struct ProofStepRef(pub usize);

impl ProofStepRef {
    pub fn new(i: usize) -> (r: ProofStepRef)
        ensures
            r.0 == i,
    {
        ProofStepRef(i)
    }
}

#[derive(Clone, Copy, PartialEq, Eq, Debug, Structural)]
pub struct ProofRef(pub usize);

impl ProofRef {
    pub fn new(i: usize) -> (r: ProofRef)
        ensures
            r.0 == i,
    {
        ProofRef(i)
    }
}

/// The errors of the first `n` variables of a local directory, each tagged with its variable.
pub open spec fn local_errors(vars: Seq<Variable>, directory: CheckableDirectory, n: nat) -> Seq<
    LocalCheckingError,
>
    decreases n,
{
    if n == 0 || n > vars.len() {
        seq![]
    } else {
        local_errors(vars, directory, (n - 1) as nat) + variable_errors(
            vars[n - 1],
            directory,
        ).map_values(
            |e: VariableCheckingError|
                LocalCheckingError::VariableError(VariableRef((n - 1) as usize), e),
        )
    }
}

/// The variables that a formula may refer to, in order.
pub struct LocalCheckableDirectory {
    pub vars: Vec<Variable>,
}

impl LocalCheckableDirectory {
    pub fn new(vars: Vec<Variable>) -> (r: LocalCheckableDirectory)
        ensures
            r.vars == vars,
    {
        LocalCheckableDirectory { vars }
    }

    /// The errors of the variables, in order (see `local_errors`).
    pub fn verify(&self, directory: &CheckableDirectory) -> (r: Vec<LocalCheckingError>)
        ensures
            r@ == local_errors(self.vars@, *directory, self.vars@.len()),
    {
        let mut errors: Vec<LocalCheckingError> = Vec::new();
        let mut i: usize = 0;
        while i < self.vars.len()
            invariant
                i <= self.vars@.len(),
                errors@ == local_errors(self.vars@, *directory, i as nat),
            decreases self.vars@.len() - i,
        {
            let inner = self.vars[i].verify(directory);
            let ghost before = errors@;
            let mut k: usize = 0;
            while k < inner.len()
                invariant
                    k <= inner@.len(),
                    errors@ == before + inner@.take(k as int).map_values(
                        |e: VariableCheckingError|
                            LocalCheckingError::VariableError(VariableRef(i), e),
                    ),
                decreases inner@.len() - k,
            {
                errors.push(LocalCheckingError::VariableError(VariableRef(i), inner[k]));
                proof {
                    assert(inner@.take(k + 1) == inner@.take(k as int).push(inner@[k as int]));
                }
                k = k + 1;
            }
            proof {
                assert(inner@.take(k as int) == inner@);
            }
            i = i + 1;
        }
        errors
    }

    pub open spec fn has_variable(&self, variable_ref: VariableRef) -> bool {
        variable_ref.0 < self.vars@.len()
    }

    pub fn search_variable(&self, variable_ref: VariableRef) -> (r: Option<&Variable>)
        ensures
            r matches Some(v) ==> self.has_variable(variable_ref) && *v == self.vars@[variable_ref.0 as int],
            r is None ==> !self.has_variable(variable_ref),
    {
        if variable_ref.0 < self.vars.len() {
            Some(&self.vars[variable_ref.0])
        } else {
            None
        }
    }

    pub fn contains_variable(&self, variable_ref: VariableRef) -> (r: bool)
        ensures
            r == self.has_variable(variable_ref),
    {
        variable_ref.0 < self.vars.len()
    }
}

/// The errors of each of the types of a directory, tagged with its reference.
pub open spec fn types_part(directory: CheckableDirectory) -> spec_fn(nat) -> Seq<CheckingError> {
    |i: nat|
        type_errors(directory.types@[i as int], directory).map_values(
            |e: TypeCheckingError| CheckingError::TypeError(TypeRef(i as usize), e),
        )
}

fn types_error(r: TypeRef, e: TypeCheckingError) -> (out: CheckingError)
    ensures
        out == CheckingError::TypeError(r, e),
{
    CheckingError::TypeError(r, e)
}

/// The errors of each of the symbols of a directory, tagged with its reference.
pub open spec fn symbols_part(directory: CheckableDirectory) -> spec_fn(nat) -> Seq<CheckingError> {
    |i: nat|
        symbol_errors(directory.symbols@[i as int], directory).map_values(
            |e: SymbolCheckingError| CheckingError::SymbolError(SymbolRef(i as usize), e),
        )
}

fn symbols_error(r: SymbolRef, e: SymbolCheckingError) -> (out: CheckingError)
    ensures
        out == CheckingError::SymbolError(r, e),
{
    CheckingError::SymbolError(r, e)
}

/// The errors of each of the definitions of a directory, tagged with its reference.
pub open spec fn definitions_part(directory: CheckableDirectory) -> spec_fn(nat) -> Seq<CheckingError> {
    |i: nat|
        definition_errors(directory.definitions@[i as int], directory).map_values(
            |e: DefinitionCheckingError| CheckingError::DefinitionError(DefinitionRef(i as usize), e),
        )
}

fn definitions_error(r: DefinitionRef, e: DefinitionCheckingError) -> (out: CheckingError)
    ensures
        out == CheckingError::DefinitionError(r, e),
{
    CheckingError::DefinitionError(r, e)
}

/// The errors of each of the axioms of a directory, tagged with its reference.
pub open spec fn axioms_part(directory: CheckableDirectory) -> spec_fn(nat) -> Seq<CheckingError> {
    |i: nat|
        axiom_errors(directory.axioms@[i as int], directory).map_values(
            |e: AxiomCheckingError| CheckingError::AxiomError(AxiomRef(i as usize), e),
        )
}

fn axioms_error(r: AxiomRef, e: AxiomCheckingError) -> (out: CheckingError)
    ensures
        out == CheckingError::AxiomError(r, e),
{
    CheckingError::AxiomError(r, e)
}

/// The errors of each of the theorems of a directory, tagged with its reference.
pub open spec fn theorems_part(directory: CheckableDirectory) -> spec_fn(nat) -> Seq<CheckingError> {
    |i: nat|
        theorem_errors(directory.theorems@[i as int], directory).map_values(
            |e: TheoremCheckingError| CheckingError::TheoremError(TheoremRef(i as usize), e),
        )
}

fn theorems_error(r: TheoremRef, e: TheoremCheckingError) -> (out: CheckingError)
    ensures
        out == CheckingError::TheoremError(r, e),
{
    CheckingError::TheoremError(r, e)
}

/// The errors of each of the proofs of a directory, tagged with its reference.
pub open spec fn proofs_part(directory: CheckableDirectory) -> spec_fn(nat) -> Seq<CheckingError> {
    |i: nat|
        proof_errors(directory.proofs@[i as int], directory).map_values(
            |e: ProofCheckingError| CheckingError::ProofError(ProofRef(i as usize), e),
        )
}

fn proofs_error(r: ProofRef, e: ProofCheckingError) -> (out: CheckingError)
    ensures
        out == CheckingError::ProofError(r, e),
{
    CheckingError::ProofError(r, e)
}

/// The reference errors of a directory: those of its types, symbols, definitions, axioms,
/// theorems and proofs, in that order.
pub open spec fn directory_errors(directory: CheckableDirectory) -> Seq<CheckingError> {
    flatten(directory.types@.len(), types_part(directory)) + flatten(
        directory.symbols@.len(),
        symbols_part(directory),
    ) + flatten(directory.definitions@.len(), definitions_part(directory)) + flatten(
        directory.axioms@.len(),
        axioms_part(directory),
    ) + flatten(directory.theorems@.len(), theorems_part(directory)) + flatten(
        directory.proofs@.len(),
        proofs_part(directory),
    )
}

/// The errors of checking each proof of a directory, tagged with its reference.
pub open spec fn proof_checks_part(directory: CheckableDirectory) -> spec_fn(nat) -> Seq<CheckingError> {
    |i: nat|
        proof_check_errors(directory.proofs@[i as int], directory).map_values(
            |e: ProofCheckingError| CheckingError::ProofError(ProofRef(i as usize), e),
        )
}

/// What checking a directory reports: its reference errors if it has any, and otherwise the
/// errors of its proofs.
pub open spec fn directory_check_errors(directory: CheckableDirectory) -> Seq<CheckingError> {
    if directory_errors(directory).len() > 0 {
        directory_errors(directory)
    } else {
        flatten(directory.proofs@.len(), proof_checks_part(directory))
    }
}

/// The errors of the `i`th proof of a directory when it is checked.
pub proof fn lemma_checkable_proofs(directory: CheckableDirectory, i: int)
    requires
        directory_errors(directory).len() == 0,
        0 <= i < directory.proofs@.len(),
    ensures
        super::system::proof_checkable(directory.proofs@[i], directory),
{
    let n = directory.proofs@.len();
    assert(flatten(n, proofs_part(directory)).len() == 0);
    lemma_flatten_empty(n, proofs_part(directory));
    assert(proofs_part(directory)(i as nat).len() == 0);
    lemma_proof_checkable(directory.proofs@[i], directory);
}

/// Everything that a document declares, each kind in its own list; a reference is an index into
/// the list of its kind.
pub struct CheckableDirectory {
    pub systems: Vec<System>,
    pub types: Vec<Type>,
    pub symbols: Vec<Symbol>,
    pub definitions: Vec<Definition>,
    pub axioms: Vec<Axiom>,
    pub theorems: Vec<Theorem>,
    pub proofs: Vec<Proof>,
}

impl CheckableDirectory {
    pub fn new(
        systems: Vec<System>,
        types: Vec<Type>,
        symbols: Vec<Symbol>,
        definitions: Vec<Definition>,
        axioms: Vec<Axiom>,
        theorems: Vec<Theorem>,
        proofs: Vec<Proof>,
    ) -> (r: CheckableDirectory)
        ensures
            r.systems == systems,
            r.types == types,
            r.symbols == symbols,
            r.definitions == definitions,
            r.axioms == axioms,
            r.theorems == theorems,
            r.proofs == proofs,
    {
        CheckableDirectory { systems, types, symbols, definitions, axioms, theorems, proofs }
    }

    /// The reference errors of the directory (see `directory_errors`).
    pub fn verify(&self) -> (r: Vec<CheckingError>)
        ensures
            r@ == directory_errors(*self),
    {
        let mut errors: Vec<CheckingError> = Vec::new();
        let ghost head = errors@;
        let mut i: usize = 0;
        while i < self.types.len()
            invariant
                i <= self.types@.len(),
                errors@ == head + flatten(i as nat, types_part(*self)),
            decreases self.types@.len() - i,
        {
            let inner = self.types[i].verify(self);
            append_tagged(
                &mut errors,
                TypeRef(i),
                &inner,
                types_error,
                Ghost(|r: TypeRef, e: TypeCheckingError| CheckingError::TypeError(r, e)),
            );
            proof {
                assert(inner@.map_values(|a: TypeCheckingError| CheckingError::TypeError(TypeRef(i), a)) =~= types_part(*self)(i as nat));
            }
            i = i + 1;
        }
        let ghost head = errors@;
        let mut i: usize = 0;
        while i < self.symbols.len()
            invariant
                i <= self.symbols@.len(),
                errors@ == head + flatten(i as nat, symbols_part(*self)),
            decreases self.symbols@.len() - i,
        {
            let inner = self.symbols[i].verify(self);
            append_tagged(
                &mut errors,
                SymbolRef(i),
                &inner,
                symbols_error,
                Ghost(|r: SymbolRef, e: SymbolCheckingError| CheckingError::SymbolError(r, e)),
            );
            proof {
                assert(inner@.map_values(|a: SymbolCheckingError| CheckingError::SymbolError(SymbolRef(i), a)) =~= symbols_part(*self)(i as nat));
            }
            i = i + 1;
        }
        let ghost head = errors@;
        let mut i: usize = 0;
        while i < self.definitions.len()
            invariant
                i <= self.definitions@.len(),
                errors@ == head + flatten(i as nat, definitions_part(*self)),
            decreases self.definitions@.len() - i,
        {
            let inner = self.definitions[i].verify(self);
            append_tagged(
                &mut errors,
                DefinitionRef(i),
                &inner,
                definitions_error,
                Ghost(|r: DefinitionRef, e: DefinitionCheckingError| CheckingError::DefinitionError(r, e)),
            );
            proof {
                assert(inner@.map_values(|a: DefinitionCheckingError| CheckingError::DefinitionError(DefinitionRef(i), a)) =~= definitions_part(*self)(i as nat));
            }
            i = i + 1;
        }
        let ghost head = errors@;
        let mut i: usize = 0;
        while i < self.axioms.len()
            invariant
                i <= self.axioms@.len(),
                errors@ == head + flatten(i as nat, axioms_part(*self)),
            decreases self.axioms@.len() - i,
        {
            let inner = self.axioms[i].verify(self);
            append_tagged(
                &mut errors,
                AxiomRef(i),
                &inner,
                axioms_error,
                Ghost(|r: AxiomRef, e: AxiomCheckingError| CheckingError::AxiomError(r, e)),
            );
            proof {
                assert(inner@.map_values(|a: AxiomCheckingError| CheckingError::AxiomError(AxiomRef(i), a)) =~= axioms_part(*self)(i as nat));
            }
            i = i + 1;
        }
        let ghost head = errors@;
        let mut i: usize = 0;
        while i < self.theorems.len()
            invariant
                i <= self.theorems@.len(),
                errors@ == head + flatten(i as nat, theorems_part(*self)),
            decreases self.theorems@.len() - i,
        {
            let inner = self.theorems[i].verify(self);
            append_tagged(
                &mut errors,
                TheoremRef(i),
                &inner,
                theorems_error,
                Ghost(|r: TheoremRef, e: TheoremCheckingError| CheckingError::TheoremError(r, e)),
            );
            proof {
                assert(inner@.map_values(|a: TheoremCheckingError| CheckingError::TheoremError(TheoremRef(i), a)) =~= theorems_part(*self)(i as nat));
            }
            i = i + 1;
        }
        let ghost head = errors@;
        let mut i: usize = 0;
        while i < self.proofs.len()
            invariant
                i <= self.proofs@.len(),
                errors@ == head + flatten(i as nat, proofs_part(*self)),
            decreases self.proofs@.len() - i,
        {
            let inner = self.proofs[i].verify(self);
            append_tagged(
                &mut errors,
                ProofRef(i),
                &inner,
                proofs_error,
                Ghost(|r: ProofRef, e: ProofCheckingError| CheckingError::ProofError(r, e)),
            );
            proof {
                assert(inner@.map_values(|a: ProofCheckingError| CheckingError::ProofError(ProofRef(i), a)) =~= proofs_part(*self)(i as nat));
            }
            i = i + 1;
        }
        errors
    }

    /// Checks the directory: its references first, and its proofs if the references all resolve
    /// (see `directory_check_errors`).
    pub fn check(&self) -> (r: CheckingErrorContext)
        ensures
            r.errors@ == directory_check_errors(*self),
    {
        let found = self.verify();
        if found.len() > 0 {
            return CheckingErrorContext { errors: found };
        }
        let mut errors: Vec<CheckingError> = Vec::new();
        let mut i: usize = 0;
        while i < self.proofs.len()
            invariant
                i <= self.proofs@.len(),
                directory_errors(*self).len() == 0,
                errors@ == flatten(i as nat, proof_checks_part(*self)),
            decreases self.proofs@.len() - i,
        {
            proof {
                lemma_checkable_proofs(*self, i as int);
            }
            let inner = self.proofs[i].check(self);
            append_tagged(
                &mut errors,
                ProofRef(i),
                &inner,
                proofs_error,
                Ghost(|r: ProofRef, e: ProofCheckingError| CheckingError::ProofError(r, e)),
            );
            proof {
                assert(inner@.map_values(|a: ProofCheckingError| CheckingError::ProofError(ProofRef(i), a)) =~= proof_checks_part(*self)(i as nat));
            }
            i = i + 1;
        }
        CheckingErrorContext { errors }
    }

    pub open spec fn has_system(&self, system_ref: SystemRef) -> bool {
        system_ref.0 < self.systems@.len()
    }

    pub fn search_system(&self, system_ref: SystemRef) -> (r: Option<&System>)
        ensures
            r matches Some(x) ==> self.has_system(system_ref) && *x == self.systems@[system_ref.0 as int],
            r is None ==> !self.has_system(system_ref),
    {
        if system_ref.0 < self.systems.len() {
            Some(&self.systems[system_ref.0])
        } else {
            None
        }
    }

    pub fn contains_system(&self, system_ref: SystemRef) -> (r: bool)
        ensures
            r == self.has_system(system_ref),
    {
        system_ref.0 < self.systems.len()
    }

    pub open spec fn has_type(&self, type_ref: TypeRef) -> bool {
        type_ref.0 < self.types@.len()
    }

    pub fn search_type(&self, type_ref: TypeRef) -> (r: Option<&Type>)
        ensures
            r matches Some(x) ==> self.has_type(type_ref) && *x == self.types@[type_ref.0 as int],
            r is None ==> !self.has_type(type_ref),
    {
        if type_ref.0 < self.types.len() {
            Some(&self.types[type_ref.0])
        } else {
            None
        }
    }

    pub fn contains_type(&self, type_ref: TypeRef) -> (r: bool)
        ensures
            r == self.has_type(type_ref),
    {
        type_ref.0 < self.types.len()
    }

    pub open spec fn has_symbol(&self, symbol_ref: SymbolRef) -> bool {
        symbol_ref.0 < self.symbols@.len()
    }

    pub fn search_symbol(&self, symbol_ref: SymbolRef) -> (r: Option<&Symbol>)
        ensures
            r matches Some(x) ==> self.has_symbol(symbol_ref) && *x == self.symbols@[symbol_ref.0 as int],
            r is None ==> !self.has_symbol(symbol_ref),
    {
        if symbol_ref.0 < self.symbols.len() {
            Some(&self.symbols[symbol_ref.0])
        } else {
            None
        }
    }

    pub fn contains_symbol(&self, symbol_ref: SymbolRef) -> (r: bool)
        ensures
            r == self.has_symbol(symbol_ref),
    {
        symbol_ref.0 < self.symbols.len()
    }

    pub open spec fn has_definition(&self, definition_ref: DefinitionRef) -> bool {
        definition_ref.0 < self.definitions@.len()
    }

    pub fn search_definition(&self, definition_ref: DefinitionRef) -> (r: Option<&Definition>)
        ensures
            r matches Some(x) ==> self.has_definition(definition_ref) && *x == self.definitions@[definition_ref.0 as int],
            r is None ==> !self.has_definition(definition_ref),
    {
        if definition_ref.0 < self.definitions.len() {
            Some(&self.definitions[definition_ref.0])
        } else {
            None
        }
    }

    pub fn contains_definition(&self, definition_ref: DefinitionRef) -> (r: bool)
        ensures
            r == self.has_definition(definition_ref),
    {
        definition_ref.0 < self.definitions.len()
    }

    pub open spec fn has_axiom(&self, axiom_ref: AxiomRef) -> bool {
        axiom_ref.0 < self.axioms@.len()
    }

    pub fn search_axiom(&self, axiom_ref: AxiomRef) -> (r: Option<&Axiom>)
        ensures
            r matches Some(x) ==> self.has_axiom(axiom_ref) && *x == self.axioms@[axiom_ref.0 as int],
            r is None ==> !self.has_axiom(axiom_ref),
    {
        if axiom_ref.0 < self.axioms.len() {
            Some(&self.axioms[axiom_ref.0])
        } else {
            None
        }
    }

    pub fn contains_axiom(&self, axiom_ref: AxiomRef) -> (r: bool)
        ensures
            r == self.has_axiom(axiom_ref),
    {
        axiom_ref.0 < self.axioms.len()
    }

    pub open spec fn has_theorem(&self, theorem_ref: TheoremRef) -> bool {
        theorem_ref.0 < self.theorems@.len()
    }

    pub fn search_theorem(&self, theorem_ref: TheoremRef) -> (r: Option<&Theorem>)
        ensures
            r matches Some(x) ==> self.has_theorem(theorem_ref) && *x == self.theorems@[theorem_ref.0 as int],
            r is None ==> !self.has_theorem(theorem_ref),
    {
        if theorem_ref.0 < self.theorems.len() {
            Some(&self.theorems[theorem_ref.0])
        } else {
            None
        }
    }

    pub fn contains_theorem(&self, theorem_ref: TheoremRef) -> (r: bool)
        ensures
            r == self.has_theorem(theorem_ref),
    {
        theorem_ref.0 < self.theorems.len()
    }

}

} // verus!
