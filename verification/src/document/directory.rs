use vstd::prelude::*;

verus! {

#[derive(Clone, Copy, PartialEq, Eq, Debug, Structural)]
pub struct SystemBlockRef(pub usize);

impl SystemBlockRef {
    pub fn new(i: usize) -> (r: SystemBlockRef)
        ensures
            r.0 == i,
    {
        SystemBlockRef(i)
    }

    pub fn get(&self) -> (r: usize)
        ensures
            r == self.0,
    {
        self.0
    }
}

#[derive(Clone, Copy, PartialEq, Eq, Debug, Structural)]
pub struct TypeBlockRef(pub usize);

impl TypeBlockRef {
    pub fn new(i: usize) -> (r: TypeBlockRef)
        ensures
            r.0 == i,
    {
        TypeBlockRef(i)
    }

    pub fn get(&self) -> (r: usize)
        ensures
            r == self.0,
    {
        self.0
    }
}

#[derive(Clone, Copy, PartialEq, Eq, Debug, Structural)]
pub struct SymbolBlockRef(pub usize);

impl SymbolBlockRef {
    pub fn new(i: usize) -> (r: SymbolBlockRef)
        ensures
            r.0 == i,
    {
        SymbolBlockRef(i)
    }

    pub fn get(&self) -> (r: usize)
        ensures
            r == self.0,
    {
        self.0
    }
}

#[derive(Clone, Copy, PartialEq, Eq, Debug, Structural)]
pub struct VariableBlockRef(pub usize);

impl VariableBlockRef {
    pub fn new(i: usize) -> (r: VariableBlockRef)
        ensures
            r.0 == i,
    {
        VariableBlockRef(i)
    }

    pub fn get(&self) -> (r: usize)
        ensures
            r == self.0,
    {
        self.0
    }
}

#[derive(Clone, Copy, PartialEq, Eq, Debug, Structural)]
pub struct AxiomBlockRef(pub usize);

impl AxiomBlockRef {
    pub fn new(i: usize) -> (r: AxiomBlockRef)
        ensures
            r.0 == i,
    {
        AxiomBlockRef(i)
    }

    pub fn get(&self) -> (r: usize)
        ensures
            r == self.0,
    {
        self.0
    }
}

#[derive(Clone, Copy, PartialEq, Eq, Debug, Structural)]
pub struct TheoremBlockRef(pub usize);

impl TheoremBlockRef {
    pub fn new(i: usize) -> (r: TheoremBlockRef)
        ensures
            r.0 == i,
    {
        TheoremBlockRef(i)
    }

    pub fn get(&self) -> (r: usize)
        ensures
            r == self.0,
    {
        self.0
    }
}

#[derive(Clone, Copy, PartialEq, Eq, Debug, Structural)]
pub struct ProofBlockRef(pub usize);

impl ProofBlockRef {
    pub fn new(i: usize) -> (r: ProofBlockRef)
        ensures
            r.0 == i,
    {
        ProofBlockRef(i)
    }

    pub fn get(&self) -> (r: usize)
        ensures
            r == self.0,
    {
        self.0
    }
}

#[derive(Clone, Copy, PartialEq, Eq, Debug, Structural)]
pub struct TableBlockRef(pub usize);

impl TableBlockRef {
    pub fn new(i: usize) -> (r: TableBlockRef)
        ensures
            r.0 == i,
    {
        TableBlockRef(i)
    }

    pub fn get(&self) -> (r: usize)
        ensures
            r == self.0,
    {
        self.0
    }
}

#[derive(Clone, Copy, PartialEq, Eq, Debug, Structural)]
pub struct QuoteBlockRef(pub usize);

impl QuoteBlockRef {
    pub fn new(i: usize) -> (r: QuoteBlockRef)
        ensures
            r.0 == i,
    {
        QuoteBlockRef(i)
    }

    pub fn get(&self) -> (r: usize)
        ensures
            r == self.0,
    {
        self.0
    }
}

#[derive(Clone, Copy, PartialEq, Eq, Debug, Structural)]
pub struct HeadingBlockRef(pub usize);

impl HeadingBlockRef {
    pub fn new(i: usize) -> (r: HeadingBlockRef)
        ensures
            r.0 == i,
    {
        HeadingBlockRef(i)
    }

    pub fn get(&self) -> (r: usize)
        ensures
            r == self.0,
    {
        self.0
    }
}

#[derive(Clone, Copy, PartialEq, Eq, Debug, Structural)]
pub struct TodoBlockRef(pub usize);

impl TodoBlockRef {
    pub fn new(i: usize) -> (r: TodoBlockRef)
        ensures
            r.0 == i,
    {
        TodoBlockRef(i)
    }

    pub fn get(&self) -> (r: usize)
        ensures
            r == self.0,
    {
        self.0
    }
}

#[derive(Clone, Copy, PartialEq, Eq, Debug, Structural)]
pub struct TextBlockRef(pub usize);

impl TextBlockRef {
    pub fn new(i: usize) -> (r: TextBlockRef)
        ensures
            r.0 == i,
    {
        TextBlockRef(i)
    }

    pub fn get(&self) -> (r: usize)
        ensures
            r == self.0,
    {
        self.0
    }
}

#[derive(Clone, Copy, PartialEq, Eq, Debug, Structural)]
pub struct BibliographyRef(pub usize);

impl BibliographyRef {
    pub fn new(i: usize) -> (r: BibliographyRef)
        ensures
            r.0 == i,
    {
        BibliographyRef(i)
    }

    pub fn get(&self) -> (r: usize)
        ensures
            r == self.0,
    {
        self.0
    }
}

#[derive(Clone, Copy, PartialEq, Eq, Debug, Structural)]
pub struct LocalBibliographyRef(pub usize);

impl LocalBibliographyRef {
    pub fn new(i: usize) -> (r: LocalBibliographyRef)
        ensures
            r.0 == i,
    {
        LocalBibliographyRef(i)
    }

    pub fn get(&self) -> (r: usize)
        ensures
            r == self.0,
    {
        self.0
    }
}

/// A step of a proof block: the proof, and the step's position in it.
#[derive(Clone, Copy, PartialEq, Eq, Debug, Structural)]
pub struct ProofBlockStepRef(pub ProofBlockRef, pub usize);

impl ProofBlockStepRef {
    pub fn new(proof_ref: ProofBlockRef, i: usize) -> (r: ProofBlockStepRef)
        ensures
            r.0 == proof_ref,
            r.1 == i,
    {
        ProofBlockStepRef(proof_ref, i)
    }
}

} // verus!
