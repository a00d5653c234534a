use vstd::prelude::*;

use super::directory::{BibliographyBuilderRef, StringMap};
use super::language::{
    inputs_model, signature_inputs, type_model, ReadBuilder, ReadSignature, ReadableBuilder, TypeModel,
    TypeSignatureBuilder,
};
use crate::str_equal;

verus! {

/// The kind of a block that belongs to a system.
#[derive(Clone, Copy, PartialEq, Eq, Debug, Structural)]
pub enum SystemChildKind {
    Type,
    Symbol,
    Definition,
    Axiom,
    Theorem,
}

/// What the index keeps of a child of a system: its kind, the serial number of its block and,
/// for an axiom or a theorem, the number of its premises.
#[derive(Clone, Copy, PartialEq, Eq, Debug, Structural)]
pub struct SystemChildEntry {
    pub kind: SystemChildKind,
    pub serial: usize,
    pub premises: usize,
}

/// A proof of a theorem, under the ids of the system and of the theorem, with the serial number
/// of its block.
pub struct ProofRecord {
    pub system_id: String,
    pub theorem_id: String,
    pub serial: usize,
}

/// The serial number of the first proof of a theorem among a list of proofs, if it has one.
pub open spec fn first_proof_in(proofs: Seq<ProofRecord>, system_id: Seq<char>, theorem_id: Seq<char>) -> Option<usize>
    decreases proofs.len(),
{
    if proofs.len() == 0 {
        None
    } else {
        match first_proof_in(proofs.drop_last(), system_id, theorem_id) {
            Some(serial) => Some(serial),
            None => if proofs.last().system_id@ == system_id && proofs.last().theorem_id@ == theorem_id {
                Some(proofs.last().serial)
            } else {
                None
            },
        }
    }
}

proof fn lemma_first_proof_prefix(proofs: Seq<ProofRecord>, n: int, system_id: Seq<char>, theorem_id: Seq<char>)
    requires
        0 <= n <= proofs.len(),
        first_proof_in(proofs.take(n), system_id, theorem_id) is Some,
    ensures
        first_proof_in(proofs, system_id, theorem_id) == first_proof_in(proofs.take(n), system_id, theorem_id),
    decreases proofs.len() - n,
{
    if n < proofs.len() {
        assert(proofs.take(n + 1).drop_last() =~= proofs.take(n));
        lemma_first_proof_prefix(proofs, n + 1, system_id, theorem_id);
    } else {
        assert(proofs.take(n) =~= proofs);
    }
}

/// The inputs of the type that an operator list finds are the inputs it was looked up by.
pub proof fn lemma_operator_inputs(
    records: Seq<OperatorRecord>,
    system_id: Seq<char>,
    read: ReadBuilder,
    inputs: Seq<TypeModel>,
)
    ensures
        operator_in(records, system_id, read, inputs) matches Some(found) ==> inputs_model(found.1) == inputs,
    decreases records.len(),
{
    if records.len() > 0 {
        lemma_operator_inputs(records.drop_last(), system_id, read, inputs);
    }
}

/// Why a proof could not be added to the index.
#[derive(Clone, Copy, PartialEq, Eq, Debug, Structural)]
pub enum ProofIndexError {
    ParentNotFound,
    ParentNotTheorem,
}

/// A child of a system, under the ids of the system and of the child.
pub struct ChildRecord {
    pub system_id: String,
    pub child_id: String,
    pub entry: SystemChildEntry,
}

/// The entry of the child of a system with a given id, among a list of records where no pair of
/// ids occurs twice.
pub open spec fn record_lookup(
    records: Seq<ChildRecord>,
    system_id: Seq<char>,
    child_id: Seq<char>,
) -> Option<SystemChildEntry> {
    if exists|i: int| 0 <= i < records.len() && #[trigger] records[i].system_id@ == system_id && records[i].child_id@ == child_id {
        Some(records[choose|i: int| 0 <= i < records.len() && #[trigger] records[i].system_id@ == system_id && records[i].child_id@ == child_id].entry)
    } else {
        None
    }
}

/// No pair of ids occurs twice.
pub open spec fn distinct_records(records: Seq<ChildRecord>) -> bool {
    forall|i: int, j: int|
        0 <= i < records.len() && 0 <= j < records.len() && i != j ==> !(records[i].system_id@ == records[j].system_id@
            && records[i].child_id@ == records[j].child_id@)
}

proof fn lemma_record_index(records: Seq<ChildRecord>, i: int)
    requires
        distinct_records(records),
        0 <= i < records.len(),
    ensures
        record_lookup(records, records[i].system_id@, records[i].child_id@) == Some(records[i].entry),
{
    let s = records[i].system_id@;
    let c = records[i].child_id@;
    assert(exists|j: int| 0 <= j < records.len() && #[trigger] records[j].system_id@ == s && records[j].child_id@ == c);
    let j = choose|j: int| 0 <= j < records.len() && #[trigger] records[j].system_id@ == s && records[j].child_id@ == c;
    assert(j == i);
}

proof fn lemma_record_push(records: Seq<ChildRecord>, r: ChildRecord)
    requires
        distinct_records(records),
        record_lookup(records, r.system_id@, r.child_id@) is None,
    ensures
        distinct_records(records.push(r)),
        forall|s: Seq<char>, c: Seq<char>| #[trigger] record_lookup(records.push(r), s, c) == (if s == r.system_id@ && c == r.child_id@ {
            Some(r.entry)
        } else {
            record_lookup(records, s, c)
        }),
{
    let pushed = records.push(r);
    assert forall|a: int, b: int|
        0 <= a < pushed.len() && 0 <= b < pushed.len() && a != b implies !(pushed[a].system_id@ == pushed[b].system_id@
            && pushed[a].child_id@ == pushed[b].child_id@) by {
        if a == records.len() && pushed[a].system_id@ == pushed[b].system_id@ && pushed[a].child_id@ == pushed[b].child_id@ {
            assert(records[b].system_id@ == r.system_id@ && records[b].child_id@ == r.child_id@);
        }
        if b == records.len() && pushed[a].system_id@ == pushed[b].system_id@ && pushed[a].child_id@ == pushed[b].child_id@ {
            assert(records[a].system_id@ == r.system_id@ && records[a].child_id@ == r.child_id@);
        }
    }
    assert forall|s: Seq<char>, c: Seq<char>| #[trigger] record_lookup(pushed, s, c) == (if s == r.system_id@ && c == r.child_id@ {
        Some(r.entry)
    } else {
        record_lookup(records, s, c)
    }) by {
        if s == r.system_id@ && c == r.child_id@ {
            lemma_record_index(pushed, records.len() as int);
        } else {
            if exists|i: int| 0 <= i < records.len() && #[trigger] records[i].system_id@ == s && records[i].child_id@ == c {
                let i = choose|i: int| 0 <= i < records.len() && #[trigger] records[i].system_id@ == s && records[i].child_id@ == c;
                lemma_record_index(records, i);
                assert(pushed[i] == records[i]);
                lemma_record_index(pushed, i);
            } else {
                assert forall|i: int| 0 <= i < pushed.len() implies !(#[trigger] pushed[i].system_id@ == s && pushed[i].child_id@ == c) by {
                    if i < records.len() {
                        assert(pushed[i] == records[i]);
                    }
                }
            }
        }
    }
}

/// The systems of a document with their children, and the keys of its bibliography.
pub struct BuilderIndex {
    /// Each system id with the serial number of its block.
    pub systems: StringMap<usize>,
    pub children: Vec<ChildRecord>,
    pub proofs: Vec<ProofRecord>,
    pub bib_refs: StringMap<BibliographyBuilderRef>,
    pub operators: Vec<OperatorRecord>,
}

/// An operator of a system: how it is read, the symbol or definition it reads as, and the type of
/// that symbol or definition, whose inputs are those of the operator.
pub struct OperatorRecord {
    pub system_id: String,
    pub read: ReadBuilder,
    pub readable: ReadableBuilder,
    pub type_signature: TypeSignatureBuilder,
}

/// The symbol or definition, with its type, that the first of a list of operators read in a
/// given way, with inputs of given types, in a system, reads as.
pub open spec fn operator_in(
    records: Seq<OperatorRecord>,
    system_id: Seq<char>,
    read: ReadBuilder,
    inputs: Seq<TypeModel>,
) -> Option<(ReadableBuilder, TypeModel)>
    decreases records.len(),
{
    if records.len() == 0 {
        None
    } else {
        match operator_in(records.drop_last(), system_id, read, inputs) {
            Some(found) => Some(found),
            None => {
                let last = records.last();
                if last.system_id@ == system_id && last.read == read && inputs_model(type_model(last.type_signature))
                    == inputs {
                    Some((last.readable, type_model(last.type_signature)))
                } else {
                    None
                }
            },
        }
    }
}

proof fn lemma_operator_prefix(
    records: Seq<OperatorRecord>,
    n: int,
    system_id: Seq<char>,
    read: ReadBuilder,
    inputs: Seq<TypeModel>,
)
    requires
        0 <= n <= records.len(),
        operator_in(records.take(n), system_id, read, inputs) is Some,
    ensures
        operator_in(records, system_id, read, inputs) == operator_in(records.take(n), system_id, read, inputs),
    decreases records.len() - n,
{
    if n < records.len() {
        assert(records.take(n + 1).drop_last() =~= records.take(n));
        lemma_operator_prefix(records, n + 1, system_id, read, inputs);
    } else {
        assert(records.take(n) =~= records);
    }
}

/// Why a child could not be added to the index.
#[derive(Clone, Copy, PartialEq, Eq, Debug, Structural)]
pub enum SystemChildIndexError {
    ParentNotFound,
    IdAlreadyTaken(SystemChildEntry),
}

impl BuilderIndex {
    pub open spec fn wf(&self) -> bool {
        &&& self.systems.wf()
        &&& self.bib_refs.wf()
        &&& distinct_records(self.children@)
    }

    /// Whether a system of this id was added.
    pub open spec fn has_system(&self, system_id: Seq<char>) -> bool {
        self.systems.model().contains_key(system_id)
    }

    /// The child of a system with a given id, if there is one.
    pub open spec fn child(&self, system_id: Seq<char>, child_id: Seq<char>) -> Option<SystemChildEntry> {
        record_lookup(self.children@, system_id, child_id)
    }

    /// The serial number of the first proof of a theorem that was added, if any.
    pub open spec fn first_proof(&self, system_id: Seq<char>, theorem_id: Seq<char>) -> Option<usize> {
        first_proof_in(self.proofs@, system_id, theorem_id)
    }

    /// The symbol or definition, with its type, that a system reads in a given way with inputs of
    /// given types, if an operator was added for it.
    pub open spec fn operator(&self, system_id: Seq<char>, read: ReadBuilder, inputs: Seq<TypeModel>) -> Option<
        (ReadableBuilder, TypeModel),
    > {
        operator_in(self.operators@, system_id, read, inputs)
    }

    /// Whether a bibliography entry has this key.
    pub open spec fn has_bib_key(&self, key: Seq<char>) -> bool {
        self.bib_refs.model().contains_key(key)
    }

    pub fn new() -> (r: BuilderIndex)
        ensures
            r.wf(),
            forall|k: Seq<char>| !(#[trigger] r.has_system(k)),
            forall|s: Seq<char>, c: Seq<char>| #[trigger] r.child(s, c) is None,
            forall|s: Seq<char>, t: Seq<char>| #[trigger] r.first_proof(s, t) is None,
            forall|k: Seq<char>| !(#[trigger] r.has_bib_key(k)),
            forall|s: Seq<char>, d: ReadBuilder, i: Seq<TypeModel>| #[trigger] r.operator(s, d, i) is None,
    {
        BuilderIndex {
            systems: StringMap::new(),
            children: Vec::new(),
            proofs: Vec::new(),
            bib_refs: StringMap::new(),
            operators: Vec::new(),
        }
    }

    /// Adds a system, with the serial number of its block. Where the id is taken already, nothing
    /// changes and the serial number of the system that holds it is returned.
    pub fn add_system(&mut self, system_id: &str, serial: usize) -> (r: Option<usize>)
        requires
            old(self).wf(),
        ensures
            final(self).wf(),
            r == (if old(self).has_system(system_id@) {
                Some(old(self).systems.model()[system_id@])
            } else {
                None
            }),
            final(self).systems.model() == (if r is None {
                old(self).systems.model().insert(system_id@, serial)
            } else {
                old(self).systems.model()
            }),
            final(self).children == old(self).children,
            final(self).proofs == old(self).proofs,
            final(self).bib_refs == old(self).bib_refs,
            final(self).operators == old(self).operators,
    {
        match self.systems.get(system_id) {
            Some(old_serial) => Some(old_serial),
            None => {
                self.systems.insert(system_id, serial);
                None
            },
        }
    }

    /// Whether a system of this id was added.
    pub fn search_system(&self, system_id: &str) -> (r: bool)
        requires
            self.wf(),
        ensures
            r == self.has_system(system_id@),
    {
        self.systems.get(system_id).is_some()
    }

    /// Adds a child to its system. It fails where the system was not added, or where the system
    /// has a child of this id already, which is returned; the index is then unchanged.
    pub fn add_system_child(&mut self, system_id: &str, child_id: &str, entry: SystemChildEntry) -> (r: Result<
        (),
        SystemChildIndexError,
    >)
        requires
            old(self).wf(),
        ensures
            final(self).wf(),
            r == (if !old(self).has_system(system_id@) {
                Err(SystemChildIndexError::ParentNotFound)
            } else if old(self).child(system_id@, child_id@) is Some {
                Err(SystemChildIndexError::IdAlreadyTaken(old(self).child(system_id@, child_id@)->0))
            } else {
                Ok(())
            }),
            forall|s: Seq<char>, c: Seq<char>| #[trigger] final(self).child(s, c) == (if s == system_id@ && c
                == child_id@ && r is Ok {
                Some(entry)
            } else {
                old(self).child(s, c)
            }),
            final(self).systems == old(self).systems,
            final(self).proofs == old(self).proofs,
            final(self).bib_refs == old(self).bib_refs,
            final(self).operators == old(self).operators,
    {
        if self.systems.get(system_id).is_none() {
            return Err(SystemChildIndexError::ParentNotFound);
        }
        match self.search_system_child(system_id, child_id) {
            Some(old_entry) => Err(SystemChildIndexError::IdAlreadyTaken(old_entry)),
            None => {
                let record = ChildRecord { system_id: system_id.to_owned(), child_id: child_id.to_owned(), entry };
                proof {
                    lemma_record_push(self.children@, record);
                }
                self.children.push(record);
                Ok(())
            },
        }
    }

    /// The child of a system with a given id, if there is one.
    pub fn search_system_child(&self, system_id: &str, child_id: &str) -> (r: Option<SystemChildEntry>)
        requires
            self.wf(),
        ensures
            r == self.child(system_id@, child_id@),
    {
        let mut i: usize = 0;
        while i < self.children.len()
            invariant
                i <= self.children@.len(),
                distinct_records(self.children@),
                forall|j: int| 0 <= j < i ==> !(#[trigger] self.children@[j].system_id@ == system_id@ && self.children@[j].child_id@ == child_id@),
            decreases self.children@.len() - i,
        {
            if str_equal(self.children[i].system_id.as_str(), system_id) && str_equal(self.children[i].child_id.as_str(), child_id) {
                proof {
                    lemma_record_index(self.children@, i as int);
                }
                return Some(self.children[i].entry);
            }
            i = i + 1;
        }
        None
    }

    /// Adds a proof of a theorem, with the serial number of its block. It fails where the system
    /// has no child of that id, or where the child is no theorem; the index is then unchanged.
    pub fn add_proof(&mut self, system_id: &str, theorem_id: &str, serial: usize) -> (r: Result<(), ProofIndexError>)
        requires
            old(self).wf(),
        ensures
            final(self).wf(),
            r == (match old(self).child(system_id@, theorem_id@) {
                None => Err(ProofIndexError::ParentNotFound),
                Some(e) => if e.kind == SystemChildKind::Theorem {
                    Ok(())
                } else {
                    Err(ProofIndexError::ParentNotTheorem)
                },
            }),
            forall|s: Seq<char>, t: Seq<char>| #[trigger] final(self).first_proof(s, t) == (if s == system_id@ && t
                == theorem_id@ && r is Ok && old(self).first_proof(s, t) is None {
                Some(serial)
            } else {
                old(self).first_proof(s, t)
            }),
            final(self).systems == old(self).systems,
            final(self).children == old(self).children,
            final(self).bib_refs == old(self).bib_refs,
            final(self).operators == old(self).operators,
    {
        match self.search_system_child(system_id, theorem_id) {
            None => Err(ProofIndexError::ParentNotFound),
            Some(e) => match e.kind {
                SystemChildKind::Theorem => {
                    let record = ProofRecord { system_id: system_id.to_owned(), theorem_id: theorem_id.to_owned(), serial };
                    self.proofs.push(record);
                    proof {
                        assert(self.proofs@.drop_last() =~= old(self).proofs@);
                    }
                    Ok(())
                },
                _ => Err(ProofIndexError::ParentNotTheorem),
            },
        }
    }

    /// The serial number of the first proof of a theorem that was added, if any.
    pub fn search_first_proof(&self, system_id: &str, theorem_id: &str) -> (r: Option<usize>)
        ensures
            r == self.first_proof(system_id@, theorem_id@),
    {
        let mut i: usize = 0;
        while i < self.proofs.len()
            invariant
                i <= self.proofs@.len(),
                first_proof_in(self.proofs@.take(i as int), system_id@, theorem_id@) is None,
            decreases self.proofs@.len() - i,
        {
            proof {
                assert(self.proofs@.take(i + 1).drop_last() =~= self.proofs@.take(i as int));
            }
            if str_equal(self.proofs[i].system_id.as_str(), system_id) && str_equal(self.proofs[i].theorem_id.as_str(), theorem_id) {
                proof {
                    lemma_first_proof_prefix(self.proofs@, i + 1, system_id@, theorem_id@);
                }
                return Some(self.proofs[i].serial);
            }
            i = i + 1;
        }
        proof {
            assert(self.proofs@.take(i as int) =~= self.proofs@);
        }
        None
    }

    /// Adds the key of a bibliography entry. Where the key is taken already, nothing changes and
    /// the entry that holds it is returned.
    pub fn add_bib_ref(&mut self, key: &str, bib_ref: BibliographyBuilderRef) -> (r: Option<
        BibliographyBuilderRef,
    >)
        requires
            old(self).wf(),
        ensures
            final(self).wf(),
            r == (if old(self).has_bib_key(key@) {
                Some(old(self).bib_refs.model()[key@])
            } else {
                None
            }),
            final(self).bib_refs.model() == (if r is None {
                old(self).bib_refs.model().insert(key@, bib_ref)
            } else {
                old(self).bib_refs.model()
            }),
            final(self).systems == old(self).systems,
            final(self).children == old(self).children,
            final(self).proofs == old(self).proofs,
            final(self).operators == old(self).operators,
    {
        match self.bib_refs.get(key) {
            Some(old_ref) => Some(old_ref),
            None => {
                self.bib_refs.insert(key, bib_ref);
                None
            },
        }
    }

    /// The bibliography entry with this key, if there is one.
    pub fn search_bib_ref(&self, key: &str) -> (r: Option<BibliographyBuilderRef>)
        requires
            self.wf(),
        ensures
            r == (if self.has_bib_key(key@) {
                Some(self.bib_refs.model()[key@])
            } else {
                None
            }),
    {
        self.bib_refs.get(key)
    }

    /// Adds an operator to a system: the way it is read, the symbol or definition it reads as, and
    /// its type, whose inputs are the operator's. Where the system reads the same way with inputs
    /// of the same types already, nothing changes and what it reads as is returned.
    pub fn add_operator(
        &mut self,
        system_id: &str,
        read: ReadBuilder,
        readable: ReadableBuilder,
        type_signature: TypeSignatureBuilder,
    ) -> (r: Result<(), ReadableBuilder>)
        requires
            old(self).wf(),
            old(self).has_system(system_id@),
        ensures
            final(self).wf(),
            r == (match old(self).operator(system_id@, read, inputs_model(type_model(type_signature))) {
                Some(found) => Err(found.0),
                None => Ok(()),
            }),
            forall|s: Seq<char>, d: ReadBuilder, i: Seq<TypeModel>| #[trigger] final(self).operator(s, d, i) == (if s
                == system_id@ && d == read && i == inputs_model(type_model(type_signature)) && r is Ok {
                Some((readable, type_model(type_signature)))
            } else {
                old(self).operator(s, d, i)
            }),
            final(self).systems == old(self).systems,
            final(self).children == old(self).children,
            final(self).proofs == old(self).proofs,
            final(self).bib_refs == old(self).bib_refs,
    {
        let ghost wanted = inputs_model(type_model(type_signature));
        let mut i: usize = 0;
        while i < self.operators.len()
            invariant
                i <= self.operators@.len(),
                *self == *old(self),
                old(self).wf(),
                old(self).has_system(system_id@),
                wanted == inputs_model(type_model(type_signature)),
                operator_in(self.operators@.take(i as int), system_id@, read, wanted) is None,
            decreases self.operators@.len() - i,
        {
            proof {
                assert(self.operators@.take(i + 1).drop_last() =~= self.operators@.take(i as int));
            }
            let record = &self.operators[i];
            if str_equal(record.system_id.as_str(), system_id) && record.read == read && record.type_signature.same_inputs(
                &type_signature,
            ) {
                proof {
                    lemma_operator_prefix(self.operators@, i + 1, system_id@, read, wanted);
                }
                return Err(record.readable);
            }
            i = i + 1;
        }
        proof {
            assert(self.operators@.take(i as int) =~= self.operators@);
        }
        let record = OperatorRecord { system_id: system_id.to_owned(), read, readable, type_signature };
        self.operators.push(record);
        proof {
            assert(self.operators@.drop_last() =~= old(self).operators@);
        }
        Ok(())
    }

    /// The symbol or definition, with its type, that a system reads with a signature, if any.
    pub fn search_operator<'a>(&'a self, system_id: &str, signature: &ReadSignature) -> (r: Option<
        (ReadableBuilder, &'a TypeSignatureBuilder),
    >)
        ensures
            match self.operator(system_id@, signature.read, signature_inputs(*signature)) {
                Some(found) => r matches Some(p) && p.0 == found.0 && type_model(*p.1) == found.1,
                None => r is None,
            },
    {
        let ghost wanted = signature_inputs(*signature);
        let mut i: usize = 0;
        while i < self.operators.len()
            invariant
                i <= self.operators@.len(),
                wanted == signature_inputs(*signature),
                operator_in(self.operators@.take(i as int), system_id@, signature.read, wanted) is None,
            decreases self.operators@.len() - i,
        {
            proof {
                assert(self.operators@.take(i + 1).drop_last() =~= self.operators@.take(i as int));
            }
            let record = &self.operators[i];
            if str_equal(record.system_id.as_str(), system_id) && record.read == signature.read
                && record.type_signature.has_inputs(&signature.inputs) {
                proof {
                    lemma_operator_prefix(self.operators@, i + 1, system_id@, signature.read, wanted);
                }
                return Some((record.readable, &record.type_signature));
            }
            i = i + 1;
        }
        proof {
            assert(self.operators@.take(i as int) =~= self.operators@);
        }
        None
    }
}

} // verus!
