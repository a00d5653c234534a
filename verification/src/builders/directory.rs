use vstd::prelude::*;

use crate::document::directory::{
    AxiomBlockRef, BibliographyRef, HeadingBlockRef, LocalBibliographyRef, ProofBlockRef, QuoteBlockRef, SymbolBlockRef, SystemBlockRef, TableBlockRef, TextBlockRef, TheoremBlockRef, TodoBlockRef, TypeBlockRef, VariableBlockRef,
};
use crate::str_equal;

verus! {

#[derive(Clone, Copy, PartialEq, Eq, Debug, Structural)]
pub struct SystemBuilderRef(pub usize);

impl SystemBuilderRef {
    /// The reference of the block that this builder becomes.
    pub fn finish(&self) -> (r: SystemBlockRef)
        ensures
            r.0 == self.0,
    {
        SystemBlockRef::new(self.0)
    }
}

#[derive(Clone, Copy, PartialEq, Eq, Debug, Structural)]
pub struct TypeBuilderRef(pub usize);

impl TypeBuilderRef {
    /// The reference of the block that this builder becomes.
    pub fn finish(&self) -> (r: TypeBlockRef)
        ensures
            r.0 == self.0,
    {
        TypeBlockRef::new(self.0)
    }
}

#[derive(Clone, Copy, PartialEq, Eq, Debug, Structural)]
pub struct SymbolBuilderRef(pub usize);

impl SymbolBuilderRef {
    /// The reference of the block that this builder becomes.
    pub fn finish(&self) -> (r: SymbolBlockRef)
        ensures
            r.0 == self.0,
    {
        SymbolBlockRef::new(self.0)
    }
}

#[derive(Clone, Copy, PartialEq, Eq, Debug, Structural)]
pub struct DefinitionBuilderRef(pub usize);

#[derive(Clone, Copy, PartialEq, Eq, Debug, Structural)]
pub struct VariableBuilderRef(pub usize);

impl VariableBuilderRef {
    pub fn get(&self) -> (r: usize)
        ensures
            r == self.0,
    {
        self.0
    }

    /// The reference of the block that this builder becomes.
    pub fn finish(&self) -> (r: VariableBlockRef)
        ensures
            r.0 == self.0,
    {
        VariableBlockRef::new(self.0)
    }
}

#[derive(Clone, Copy, PartialEq, Eq, Debug, Structural)]
pub struct AxiomBuilderRef(pub usize);

impl AxiomBuilderRef {
    /// The reference of the block that this builder becomes.
    pub fn finish(&self) -> (r: AxiomBlockRef)
        ensures
            r.0 == self.0,
    {
        AxiomBlockRef::new(self.0)
    }
}

#[derive(Clone, Copy, PartialEq, Eq, Debug, Structural)]
pub struct TheoremBuilderRef(pub usize);

impl TheoremBuilderRef {
    /// The reference of the block that this builder becomes.
    pub fn finish(&self) -> (r: TheoremBlockRef)
        ensures
            r.0 == self.0,
    {
        TheoremBlockRef::new(self.0)
    }
}

#[derive(Clone, Copy, PartialEq, Eq, Debug, Structural)]
pub struct ProofBuilderRef(pub usize);

impl ProofBuilderRef {
    /// The reference of the block that this builder becomes.
    pub fn finish(&self) -> (r: ProofBlockRef)
        ensures
            r.0 == self.0,
    {
        ProofBlockRef::new(self.0)
    }
}

#[derive(Clone, Copy, PartialEq, Eq, Debug, Structural)]
pub struct TableBuilderRef(pub usize);

impl TableBuilderRef {
    /// The reference of the block that this builder becomes.
    pub fn finish(&self) -> (r: TableBlockRef)
        ensures
            r.0 == self.0,
    {
        TableBlockRef::new(self.0)
    }
}

#[derive(Clone, Copy, PartialEq, Eq, Debug, Structural)]
pub struct QuoteBuilderRef(pub usize);

impl QuoteBuilderRef {
    /// The reference of the block that this builder becomes.
    pub fn finish(&self) -> (r: QuoteBlockRef)
        ensures
            r.0 == self.0,
    {
        QuoteBlockRef::new(self.0)
    }
}

#[derive(Clone, Copy, PartialEq, Eq, Debug, Structural)]
pub struct HeadingBuilderRef(pub usize);

impl HeadingBuilderRef {
    /// The reference of the block that this builder becomes.
    pub fn finish(&self) -> (r: HeadingBlockRef)
        ensures
            r.0 == self.0,
    {
        HeadingBlockRef::new(self.0)
    }
}

#[derive(Clone, Copy, PartialEq, Eq, Debug, Structural)]
pub struct TodoBuilderRef(pub usize);

impl TodoBuilderRef {
    /// The reference of the block that this builder becomes.
    pub fn finish(&self) -> (r: TodoBlockRef)
        ensures
            r.0 == self.0,
    {
        TodoBlockRef::new(self.0)
    }
}

#[derive(Clone, Copy, PartialEq, Eq, Debug, Structural)]
pub struct TextBlockBuilderRef(pub usize);

impl TextBlockBuilderRef {
    /// The reference of the block that this builder becomes.
    pub fn finish(&self) -> (r: TextBlockRef)
        ensures
            r.0 == self.0,
    {
        TextBlockRef::new(self.0)
    }
}

#[derive(Clone, Copy, PartialEq, Eq, Debug, Structural)]
pub struct BibliographyBuilderRef(pub usize);

impl BibliographyBuilderRef {
    /// The reference of the block that this builder becomes.
    pub fn finish(&self) -> (r: BibliographyRef)
        ensures
            r.0 == self.0,
    {
        BibliographyRef::new(self.0)
    }
}

#[derive(Clone, Copy, PartialEq, Eq, Debug, Structural)]
pub struct LocalBibliographyBuilderRef(pub usize);

impl LocalBibliographyBuilderRef {
    /// The reference of the block that this builder becomes.
    pub fn finish(&self) -> (r: LocalBibliographyRef)
        ensures
            r.0 == self.0,
    {
        LocalBibliographyRef::new(self.0)
    }
}

/// A step of the proof being built, by position.
#[derive(Clone, Copy, PartialEq, Eq, Debug, Structural)]
pub struct ProofBuilderStepRef(pub usize);

impl ProofBuilderStepRef {
    pub fn new(i: usize) -> (r: ProofBuilderStepRef)
        ensures
            r.0 == i,
    {
        ProofBuilderStepRef(i)
    }

    /// The reference of the step in the proof block `proof_ref`.
    pub fn finish(&self, proof_ref: crate::document::directory::ProofBlockRef) -> (r: crate::document::directory::ProofBlockStepRef)
        ensures
            r.0 == proof_ref,
            r.1 == self.0,
    {
        crate::document::directory::ProofBlockStepRef::new(proof_ref, self.0)
    }
}

/// What a notation reads as.
#[derive(Clone, Copy, Debug)]
pub enum ReadableKind {
    Symbol(SymbolBuilderRef),
}

/// A notation that can be read in a formula: what it reads as, and how many inputs it takes.
#[derive(Clone, Copy, Debug)]
pub struct Readable {
    pub kind: ReadableKind,
    pub arity: usize,
}

impl Readable {
    pub fn symbol(symbol_ref: SymbolBuilderRef, arity: usize) -> (r: Readable)
        ensures
            r.kind == ReadableKind::Symbol(symbol_ref),
            r.arity == arity,
    {
        Readable { kind: ReadableKind::Symbol(symbol_ref), arity }
    }

    pub fn kind(&self) -> (r: ReadableKind)
        ensures
            r == self.kind,
    {
        self.kind
    }
}

/// The map that a list of string-keyed entries with distinct keys describes.
pub open spec fn keyed_model<V>(entries: Seq<(String, V)>) -> Map<Seq<char>, V> {
    Map::new(
        |k: Seq<char>| exists|i: int| 0 <= i < entries.len() && entries[i].0@ == k,
        |k: Seq<char>| entries[choose|i: int| 0 <= i < entries.len() && entries[i].0@ == k].1,
    )
}

/// No key occurs twice.
pub open spec fn distinct_string_keys<V>(entries: Seq<(String, V)>) -> bool {
    forall|i: int, j: int|
        0 <= i < entries.len() && 0 <= j < entries.len() && i != j ==> entries[i].0@
            != entries[j].0@
}

proof fn lemma_keyed_index<V>(entries: Seq<(String, V)>, i: int)
    requires
        distinct_string_keys(entries),
        0 <= i < entries.len(),
    ensures
        keyed_model(entries).contains_key(entries[i].0@),
        keyed_model(entries)[entries[i].0@] == entries[i].1,
{
    let k = entries[i].0@;
    assert(exists|j: int| 0 <= j < entries.len() && entries[j].0@ == k);
    let j = choose|j: int| 0 <= j < entries.len() && entries[j].0@ == k;
    assert(j == i);
}

proof fn lemma_keyed_update<V>(entries: Seq<(String, V)>, i: int, k: String, v: V)
    requires
        distinct_string_keys(entries),
        0 <= i <= entries.len(),
        i < entries.len() ==> entries[i].0@ == k@,
        i == entries.len() ==> !keyed_model(entries).contains_key(k@),
    ensures
        ({
            let updated = if i < entries.len() { entries.update(i, (k, v)) } else { entries.push((k, v)) };
            &&& distinct_string_keys(updated)
            &&& keyed_model(updated) == keyed_model(entries).insert(k@, v)
        }),
{
    let updated = if i < entries.len() { entries.update(i, (k, v)) } else { entries.push((k, v)) };
    assert forall|a: int, b: int|
        0 <= a < updated.len() && 0 <= b < updated.len() && a != b implies updated[a].0@ != updated[b].0@ by {
        if a == i && i == entries.len() {
            assert(keyed_model(entries).contains_key(entries[b].0@));
        } else if b == i && i == entries.len() {
            assert(keyed_model(entries).contains_key(entries[a].0@));
        }
    }
    let m1 = keyed_model(updated);
    let m2 = keyed_model(entries).insert(k@, v);
    assert forall|x: Seq<char>| m1.contains_key(x) == m2.contains_key(x) by {
        if m1.contains_key(x) {
            let a = choose|a: int| 0 <= a < updated.len() && updated[a].0@ == x;
            if a != i {
                assert(entries[a].0@ == x);
            }
        }
        if keyed_model(entries).contains_key(x) {
            let a = choose|a: int| 0 <= a < entries.len() && entries[a].0@ == x;
            assert(updated[a].0@ == x);
        }
        if x == k@ {
            assert(updated[i].0@ == x);
        }
    }
    assert forall|x: Seq<char>| m1.contains_key(x) implies m1[x] == m2[x] by {
        let a = choose|a: int| 0 <= a < updated.len() && updated[a].0@ == x;
        lemma_keyed_index(updated, a);
        if a != i {
            lemma_keyed_index(entries, a);
        }
    }
    assert(m1 =~= m2);
}

/// A finite map from strings to small values.
pub struct StringMap<V> {
    pub entries: Vec<(String, V)>,
}

impl<V: Copy> StringMap<V> {
    pub open spec fn wf(&self) -> bool {
        distinct_string_keys(self.entries@)
    }

    pub open spec fn model(&self) -> Map<Seq<char>, V> {
        keyed_model(self.entries@)
    }

    pub fn new() -> (r: StringMap<V>)
        ensures
            r.wf(),
            r.model() == Map::<Seq<char>, V>::empty(),
    {
        let r = StringMap { entries: Vec::new() };
        assert(r.model() =~= Map::<Seq<char>, V>::empty());
        r
    }

    /// Where `key` is stored, if it is.
    fn position(&self, key: &str) -> (r: Option<usize>)
        requires
            self.wf(),
        ensures
            r matches Some(i) ==> i < self.entries@.len() && self.entries@[i as int].0@ == key@,
            r is None ==> !self.model().contains_key(key@),
    {
        let mut i: usize = 0;
        while i < self.entries.len()
            invariant
                i <= self.entries@.len(),
                forall|j: int| 0 <= j < i ==> self.entries@[j].0@ != key@,
            decreases self.entries@.len() - i,
        {
            if str_equal(self.entries[i].0.as_str(), key) {
                return Some(i);
            }
            i = i + 1;
        }
        None
    }

    pub fn get(&self, key: &str) -> (r: Option<V>)
        requires
            self.wf(),
        ensures
            r == (if self.model().contains_key(key@) {
                Some(self.model()[key@])
            } else {
                None
            }),
    {
        match self.position(key) {
            Some(i) => {
                proof {
                    lemma_keyed_index(self.entries@, i as int);
                }
                Some(self.entries[i].1)
            },
            None => None,
        }
    }

    /// Binds `key` to `value`, replacing any earlier binding.
    pub fn insert(&mut self, key: &str, value: V)
        requires
            old(self).wf(),
        ensures
            final(self).wf(),
            final(self).model() == old(self).model().insert(key@, value),
    {
        let owned = key.to_owned();
        match self.position(key) {
            Some(i) => {
                proof {
                    lemma_keyed_update(self.entries@, i as int, owned, value);
                }
                self.entries.set(i, (owned, value));
            },
            None => {
                proof {
                    lemma_keyed_update(self.entries@, self.entries@.len() as int, owned, value);
                }
                self.entries.push((owned, value));
            },
        }
    }
}

/// The tags of the steps of a proof.
pub struct TagIndex {
    pub tags: StringMap<ProofBuilderStepRef>,
}

impl TagIndex {
    pub open spec fn wf(&self) -> bool {
        self.tags.wf()
    }

    pub fn new() -> (r: TagIndex)
        ensures
            r.wf(),
            r.tags.model() == Map::<Seq<char>, ProofBuilderStepRef>::empty(),
    {
        TagIndex { tags: StringMap::new() }
    }

    /// Tags a step. The tag then names this step; the step it named before, if any, is returned,
    /// as it means that the tag was taken twice.
    pub fn add_tag(&mut self, tag: &str, step_ref: ProofBuilderStepRef) -> (r: Option<
        ProofBuilderStepRef,
    >)
        requires
            old(self).wf(),
        ensures
            final(self).wf(),
            r == (if old(self).tags.model().contains_key(tag@) {
                Some(old(self).tags.model()[tag@])
            } else {
                None
            }),
            final(self).tags.model() == old(self).tags.model().insert(tag@, step_ref),
    {
        let old_step = self.tags.get(tag);
        self.tags.insert(tag, step_ref);
        old_step
    }

    /// The step that a tag names, if any.
    pub fn search(&self, tag: &str) -> (r: Option<ProofBuilderStepRef>)
        requires
            self.wf(),
        ensures
            r == (if self.tags.model().contains_key(tag@) {
                Some(self.tags.model()[tag@])
            } else {
                None
            }),
    {
        self.tags.get(tag)
    }
}

/// The keys of the entries of a bibliography.
pub struct BibliographyBuilderIndex {
    pub entries: StringMap<BibliographyBuilderRef>,
}

impl BibliographyBuilderIndex {
    pub open spec fn wf(&self) -> bool {
        self.entries.wf()
    }

    pub fn new() -> (r: BibliographyBuilderIndex)
        ensures
            r.wf(),
            r.entries.model() == Map::<Seq<char>, BibliographyBuilderRef>::empty(),
    {
        BibliographyBuilderIndex { entries: StringMap::new() }
    }

    /// Registers an entry under a key. A key that is taken keeps its entry, which is returned,
    /// as it means that the key was used twice.
    pub fn add_entry(&mut self, key: &str, bib_ref: BibliographyBuilderRef) -> (r: Option<
        BibliographyBuilderRef,
    >)
        requires
            old(self).wf(),
        ensures
            final(self).wf(),
            old(self).entries.model().contains_key(key@) ==> r == Some(
                old(self).entries.model()[key@],
            ) && final(self).entries.model() == old(self).entries.model(),
            !old(self).entries.model().contains_key(key@) ==> r is None && final(self).entries.model()
                == old(self).entries.model().insert(key@, bib_ref),
    {
        match self.entries.get(key) {
            Some(old_ref) => Some(old_ref),
            None => {
                self.entries.insert(key, bib_ref);
                None
            },
        }
    }

    /// The entry registered under a key, if any.
    pub fn search_key(&self, key: &str) -> (r: Option<BibliographyBuilderRef>)
        requires
            self.wf(),
        ensures
            r == (if self.entries.model().contains_key(key@) {
                Some(self.entries.model()[key@])
            } else {
                None
            }),
    {
        self.entries.get(key)
    }
}

/// The position of the last occurrence of `x` in `s`, if any.
pub open spec fn last_occurrence(s: Seq<BibliographyBuilderRef>, x: BibliographyBuilderRef) -> Option<int>
    decreases s.len(),
{
    if s.len() == 0 {
        None
    } else if s.last() == x {
        Some(s.len() - 1)
    } else {
        last_occurrence(s.drop_last(), x)
    }
}

/// The numbering of the entries of a bibliography that a page cites: an entry is numbered by
/// its position in the page's list, the last position where it occurs twice.
pub struct LocalBibliographyBuilderIndex {
    pub entries: Vec<BibliographyBuilderRef>,
}

impl LocalBibliographyBuilderIndex {
    pub fn new(entries: &Vec<BibliographyBuilderRef>) -> (r: LocalBibliographyBuilderIndex)
        ensures
            r.entries@ == entries@,
    {
        let mut copy: Vec<BibliographyBuilderRef> = Vec::new();
        let mut i: usize = 0;
        while i < entries.len()
            invariant
                i <= entries@.len(),
                copy@ == entries@.take(i as int),
            decreases entries@.len() - i,
        {
            copy.push(entries[i]);
            proof {
                assert(entries@.take(i + 1) == entries@.take(i as int).push(entries@[i as int]));
            }
            i = i + 1;
        }
        proof {
            assert(entries@.take(i as int) == entries@);
        }
        LocalBibliographyBuilderIndex { entries: copy }
    }

    /// The local number of a cited entry.
    pub fn index(&self, bib_ref: BibliographyBuilderRef) -> (r: LocalBibliographyBuilderRef)
        requires
            last_occurrence(self.entries@, bib_ref) is Some,
        ensures
            last_occurrence(self.entries@, bib_ref) == Some(r.0 as int),
    {
        let mut i: usize = self.entries.len();
        assert(self.entries@.take(i as int) == self.entries@);
        while i > 0
            invariant
                i <= self.entries@.len(),
                last_occurrence(self.entries@, bib_ref) == last_occurrence(
                    self.entries@.take(i as int),
                    bib_ref,
                ),
            decreases i,
        {
            proof {
                assert(self.entries@.take(i as int).drop_last() == self.entries@.take(i - 1));
            }
            if self.entries[i - 1] == bib_ref {
                return LocalBibliographyBuilderRef(i - 1);
            }
            i = i - 1;
        }
        LocalBibliographyBuilderRef(0)
    }
}

} // verus!
