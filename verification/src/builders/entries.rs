//! The entries of a block as they are read, and how each kind of block gathers them: every entry
//! is kept, in the order it was written, with the others of its kind, so that the structural
//! checks can tell an entry that is missing from one that is given twice.
use vstd::prelude::*;

use super::language::{
    DefinitionBuilderEntries, DisplayFormulaBuilder, ReadBuilder, SymbolBuilderEntries, TypeBuilderEntries,
    TypeSignatureBuilder, VariableBuilder,
};
use super::system::{AxiomBuilderEntries, FlagList, SystemBuilderEntries, TheoremBuilderEntries};
use super::text::{ParagraphBuilder, TextBuilder};
use crate::document::language::Display;

verus! {

/// An entry of a block as it is read: its kind, with its contents.
pub enum EntryNode {
    Name(String),
    Tagline(ParagraphBuilder),
    Description(Vec<TextBuilder>),
    Flags(FlagList),
    Var(VariableBuilder),
    Premise(Vec<DisplayFormulaBuilder>),
    Assertion(DisplayFormulaBuilder),
    TypeSignature(TypeSignatureBuilder),
    Read(ReadBuilder),
    Display(Display),
    Inputs(Vec<VariableBuilder>),
    Expanded(DisplayFormulaBuilder),
}

/// The contents of the entries that `pick` selects, in order.
pub open spec fn select<T>(nodes: Seq<EntryNode>, pick: spec_fn(EntryNode) -> Option<T>) -> Seq<T>
    decreases nodes.len(),
{
    if nodes.len() == 0 {
        seq![]
    } else {
        select(nodes.drop_last(), pick) + match pick(nodes.last()) {
            Some(v) => seq![v],
            None => seq![],
        }
    }
}

pub open spec fn name_of(n: EntryNode) -> Option<String> {
    match n {
        EntryNode::Name(v) => Some(v),
        _ => None,
    }
}

pub open spec fn tagline_of(n: EntryNode) -> Option<ParagraphBuilder> {
    match n {
        EntryNode::Tagline(v) => Some(v),
        _ => None,
    }
}

pub open spec fn description_of(n: EntryNode) -> Option<Vec<TextBuilder>> {
    match n {
        EntryNode::Description(v) => Some(v),
        _ => None,
    }
}

pub open spec fn flags_of(n: EntryNode) -> Option<FlagList> {
    match n {
        EntryNode::Flags(v) => Some(v),
        _ => None,
    }
}

pub open spec fn var_of(n: EntryNode) -> Option<VariableBuilder> {
    match n {
        EntryNode::Var(v) => Some(v),
        _ => None,
    }
}

pub open spec fn premise_of(n: EntryNode) -> Option<Vec<DisplayFormulaBuilder>> {
    match n {
        EntryNode::Premise(v) => Some(v),
        _ => None,
    }
}

pub open spec fn assertion_of(n: EntryNode) -> Option<DisplayFormulaBuilder> {
    match n {
        EntryNode::Assertion(v) => Some(v),
        _ => None,
    }
}

pub open spec fn type_signature_of(n: EntryNode) -> Option<TypeSignatureBuilder> {
    match n {
        EntryNode::TypeSignature(v) => Some(v),
        _ => None,
    }
}

pub open spec fn read_of(n: EntryNode) -> Option<ReadBuilder> {
    match n {
        EntryNode::Read(v) => Some(v),
        _ => None,
    }
}

pub open spec fn display_of(n: EntryNode) -> Option<Display> {
    match n {
        EntryNode::Display(v) => Some(v),
        _ => None,
    }
}

pub open spec fn inputs_of(n: EntryNode) -> Option<Vec<VariableBuilder>> {
    match n {
        EntryNode::Inputs(v) => Some(v),
        _ => None,
    }
}

pub open spec fn expanded_of(n: EntryNode) -> Option<DisplayFormulaBuilder> {
    match n {
        EntryNode::Expanded(v) => Some(v),
        _ => None,
    }
}

/// Selecting from a list with one more entry selects what was selected, then that entry's
/// contents if it is selected.
proof fn lemma_select_push<T>(nodes: Seq<EntryNode>, node: EntryNode, pick: spec_fn(EntryNode) -> Option<T>)
    ensures
        select(nodes.push(node), pick) == select(nodes, pick) + match pick(node) {
            Some(v) => seq![v],
            None => seq![],
        },
{
    assert(nodes.push(node).drop_last() =~= nodes);
}

/// Whether an entry can stand in a system or a type block: a name, a tagline or a description.
pub open spec fn prose_entry(n: EntryNode) -> bool {
    n is Name || n is Tagline || n is Description
}

/// Whether an entry can stand in a symbol block.
pub open spec fn symbol_entry(n: EntryNode) -> bool {
    prose_entry(n) || n is TypeSignature || n is Read || n is Display
}

/// Whether an entry can stand in a definition block.
pub open spec fn definition_entry(n: EntryNode) -> bool {
    prose_entry(n) || n is Inputs || n is Read || n is Display || n is Expanded
}

/// Whether an entry can stand in an axiom or a theorem block.
pub open spec fn statement_entry(n: EntryNode) -> bool {
    prose_entry(n) || n is Flags || n is Var || n is Premise || n is Assertion
}

/// Takes the first entry of a list, with what it says of the entries taken before.
fn take_first(nodes: &mut Vec<EntryNode>, Ghost(all): Ghost<Seq<EntryNode>>, Ghost(k): Ghost<int>) -> (r: EntryNode)
    requires
        0 <= k < all.len(),
        old(nodes)@ == all.skip(k),
    ensures
        r == all[k],
        final(nodes)@ == all.skip(k + 1),
{
    let r = nodes.remove(0);
    assert(all.skip(k + 1) =~= all.skip(k).remove(0));
    r
}

impl SystemBuilderEntries {
    /// Gathers the entries of a system block, each kind in the order written.
    pub fn from_nodes(nodes: Vec<EntryNode>) -> (r: SystemBuilderEntries)
        requires
            forall|i: int| 0 <= i < nodes@.len() ==> prose_entry(#[trigger] nodes@[i]),
        ensures
            r.names@ == select(nodes@, |n: EntryNode| name_of(n)),
            r.taglines@ == select(nodes@, |n: EntryNode| tagline_of(n)),
            r.descriptions@ == select(nodes@, |n: EntryNode| description_of(n)),
    {
        let ghost all = nodes@;
        let mut nodes = nodes;
        let mut names: Vec<String> = Vec::new();
        let mut taglines: Vec<ParagraphBuilder> = Vec::new();
        let mut descriptions: Vec<Vec<TextBuilder>> = Vec::new();
        let total = nodes.len();
        let mut k: usize = 0;
        assert(all.skip(0) =~= all);
        while nodes.len() > 0
            invariant
                0 <= k <= all.len(),
                all.len() == total,
                nodes@ == all.skip(k as int),
                names@ == select(all.take(k as int), |n: EntryNode| name_of(n)),
                taglines@ == select(all.take(k as int), |n: EntryNode| tagline_of(n)),
                descriptions@ == select(all.take(k as int), |n: EntryNode| description_of(n)),
            decreases all.len() - k,
        {
            let node = take_first(&mut nodes, Ghost(all), Ghost(k as int));
            proof {
                assert(all.take(k + 1) =~= all.take(k as int).push(node));
                lemma_select_push(all.take(k as int), node, |n: EntryNode| name_of(n));
                lemma_select_push(all.take(k as int), node, |n: EntryNode| tagline_of(n));
                lemma_select_push(all.take(k as int), node, |n: EntryNode| description_of(n));
            }
            match node {
                EntryNode::Name(v) => names.push(v),
                EntryNode::Tagline(v) => taglines.push(v),
                EntryNode::Description(v) => descriptions.push(v),
                _ => {},
            }
            k = k + 1;
        }
        assert(all.take(k as int) =~= all);
        SystemBuilderEntries { names, taglines, descriptions }
    }
}

impl TypeBuilderEntries {
    /// Gathers the entries of a type block, each kind in the order written.
    pub fn from_nodes(nodes: Vec<EntryNode>) -> (r: TypeBuilderEntries)
        requires
            forall|i: int| 0 <= i < nodes@.len() ==> prose_entry(#[trigger] nodes@[i]),
        ensures
            r.names@ == select(nodes@, |n: EntryNode| name_of(n)),
            r.taglines@ == select(nodes@, |n: EntryNode| tagline_of(n)),
            r.descriptions@ == select(nodes@, |n: EntryNode| description_of(n)),
    {
        let ghost all = nodes@;
        let mut nodes = nodes;
        let mut names: Vec<String> = Vec::new();
        let mut taglines: Vec<ParagraphBuilder> = Vec::new();
        let mut descriptions: Vec<Vec<TextBuilder>> = Vec::new();
        let total = nodes.len();
        let mut k: usize = 0;
        assert(all.skip(0) =~= all);
        while nodes.len() > 0
            invariant
                0 <= k <= all.len(),
                all.len() == total,
                nodes@ == all.skip(k as int),
                names@ == select(all.take(k as int), |n: EntryNode| name_of(n)),
                taglines@ == select(all.take(k as int), |n: EntryNode| tagline_of(n)),
                descriptions@ == select(all.take(k as int), |n: EntryNode| description_of(n)),
            decreases all.len() - k,
        {
            let node = take_first(&mut nodes, Ghost(all), Ghost(k as int));
            proof {
                assert(all.take(k + 1) =~= all.take(k as int).push(node));
                lemma_select_push(all.take(k as int), node, |n: EntryNode| name_of(n));
                lemma_select_push(all.take(k as int), node, |n: EntryNode| tagline_of(n));
                lemma_select_push(all.take(k as int), node, |n: EntryNode| description_of(n));
            }
            match node {
                EntryNode::Name(v) => names.push(v),
                EntryNode::Tagline(v) => taglines.push(v),
                EntryNode::Description(v) => descriptions.push(v),
                _ => {},
            }
            k = k + 1;
        }
        assert(all.take(k as int) =~= all);
        TypeBuilderEntries { names, taglines, descriptions }
    }
}

impl SymbolBuilderEntries {
    /// Gathers the entries of a symbol block, each kind in the order written.
    pub fn from_nodes(nodes: Vec<EntryNode>) -> (r: SymbolBuilderEntries)
        requires
            forall|i: int| 0 <= i < nodes@.len() ==> symbol_entry(#[trigger] nodes@[i]),
        ensures
            r.names@ == select(nodes@, |n: EntryNode| name_of(n)),
            r.taglines@ == select(nodes@, |n: EntryNode| tagline_of(n)),
            r.descriptions@ == select(nodes@, |n: EntryNode| description_of(n)),
            r.type_signatures@ == select(nodes@, |n: EntryNode| type_signature_of(n)),
            r.reads@ == select(nodes@, |n: EntryNode| read_of(n)),
            r.displays@ == select(nodes@, |n: EntryNode| display_of(n)),
    {
        let ghost all = nodes@;
        let mut nodes = nodes;
        let mut names: Vec<String> = Vec::new();
        let mut taglines: Vec<ParagraphBuilder> = Vec::new();
        let mut descriptions: Vec<Vec<TextBuilder>> = Vec::new();
        let mut type_signatures: Vec<TypeSignatureBuilder> = Vec::new();
        let mut reads: Vec<ReadBuilder> = Vec::new();
        let mut displays: Vec<Display> = Vec::new();
        let total = nodes.len();
        let mut k: usize = 0;
        assert(all.skip(0) =~= all);
        while nodes.len() > 0
            invariant
                0 <= k <= all.len(),
                all.len() == total,
                nodes@ == all.skip(k as int),
                names@ == select(all.take(k as int), |n: EntryNode| name_of(n)),
                taglines@ == select(all.take(k as int), |n: EntryNode| tagline_of(n)),
                descriptions@ == select(all.take(k as int), |n: EntryNode| description_of(n)),
                type_signatures@ == select(all.take(k as int), |n: EntryNode| type_signature_of(n)),
                reads@ == select(all.take(k as int), |n: EntryNode| read_of(n)),
                displays@ == select(all.take(k as int), |n: EntryNode| display_of(n)),
            decreases all.len() - k,
        {
            let node = take_first(&mut nodes, Ghost(all), Ghost(k as int));
            proof {
                assert(all.take(k + 1) =~= all.take(k as int).push(node));
                lemma_select_push(all.take(k as int), node, |n: EntryNode| name_of(n));
                lemma_select_push(all.take(k as int), node, |n: EntryNode| tagline_of(n));
                lemma_select_push(all.take(k as int), node, |n: EntryNode| description_of(n));
                lemma_select_push(all.take(k as int), node, |n: EntryNode| type_signature_of(n));
                lemma_select_push(all.take(k as int), node, |n: EntryNode| read_of(n));
                lemma_select_push(all.take(k as int), node, |n: EntryNode| display_of(n));
            }
            match node {
                EntryNode::Name(v) => names.push(v),
                EntryNode::Tagline(v) => taglines.push(v),
                EntryNode::Description(v) => descriptions.push(v),
                EntryNode::TypeSignature(v) => type_signatures.push(v),
                EntryNode::Read(v) => reads.push(v),
                EntryNode::Display(v) => displays.push(v),
                _ => {},
            }
            k = k + 1;
        }
        assert(all.take(k as int) =~= all);
        SymbolBuilderEntries { names, taglines, descriptions, type_signatures, reads, displays }
    }
}

impl DefinitionBuilderEntries {
    /// Gathers the entries of a definition block, each kind in the order written.
    pub fn from_nodes(nodes: Vec<EntryNode>) -> (r: DefinitionBuilderEntries)
        requires
            forall|i: int| 0 <= i < nodes@.len() ==> definition_entry(#[trigger] nodes@[i]),
        ensures
            r.names@ == select(nodes@, |n: EntryNode| name_of(n)),
            r.taglines@ == select(nodes@, |n: EntryNode| tagline_of(n)),
            r.descriptions@ == select(nodes@, |n: EntryNode| description_of(n)),
            r.inputs@ == select(nodes@, |n: EntryNode| inputs_of(n)),
            r.reads@ == select(nodes@, |n: EntryNode| read_of(n)),
            r.displays@ == select(nodes@, |n: EntryNode| display_of(n)),
            r.expansions@ == select(nodes@, |n: EntryNode| expanded_of(n)),
    {
        let ghost all = nodes@;
        let mut nodes = nodes;
        let mut names: Vec<String> = Vec::new();
        let mut taglines: Vec<ParagraphBuilder> = Vec::new();
        let mut descriptions: Vec<Vec<TextBuilder>> = Vec::new();
        let mut inputs: Vec<Vec<VariableBuilder>> = Vec::new();
        let mut reads: Vec<ReadBuilder> = Vec::new();
        let mut displays: Vec<Display> = Vec::new();
        let mut expansions: Vec<DisplayFormulaBuilder> = Vec::new();
        let total = nodes.len();
        let mut k: usize = 0;
        assert(all.skip(0) =~= all);
        while nodes.len() > 0
            invariant
                0 <= k <= all.len(),
                all.len() == total,
                nodes@ == all.skip(k as int),
                names@ == select(all.take(k as int), |n: EntryNode| name_of(n)),
                taglines@ == select(all.take(k as int), |n: EntryNode| tagline_of(n)),
                descriptions@ == select(all.take(k as int), |n: EntryNode| description_of(n)),
                inputs@ == select(all.take(k as int), |n: EntryNode| inputs_of(n)),
                reads@ == select(all.take(k as int), |n: EntryNode| read_of(n)),
                displays@ == select(all.take(k as int), |n: EntryNode| display_of(n)),
                expansions@ == select(all.take(k as int), |n: EntryNode| expanded_of(n)),
            decreases all.len() - k,
        {
            let node = take_first(&mut nodes, Ghost(all), Ghost(k as int));
            proof {
                assert(all.take(k + 1) =~= all.take(k as int).push(node));
                lemma_select_push(all.take(k as int), node, |n: EntryNode| name_of(n));
                lemma_select_push(all.take(k as int), node, |n: EntryNode| tagline_of(n));
                lemma_select_push(all.take(k as int), node, |n: EntryNode| description_of(n));
                lemma_select_push(all.take(k as int), node, |n: EntryNode| inputs_of(n));
                lemma_select_push(all.take(k as int), node, |n: EntryNode| read_of(n));
                lemma_select_push(all.take(k as int), node, |n: EntryNode| display_of(n));
                lemma_select_push(all.take(k as int), node, |n: EntryNode| expanded_of(n));
            }
            match node {
                EntryNode::Name(v) => names.push(v),
                EntryNode::Tagline(v) => taglines.push(v),
                EntryNode::Description(v) => descriptions.push(v),
                EntryNode::Inputs(v) => inputs.push(v),
                EntryNode::Read(v) => reads.push(v),
                EntryNode::Display(v) => displays.push(v),
                EntryNode::Expanded(v) => expansions.push(v),
                _ => {},
            }
            k = k + 1;
        }
        assert(all.take(k as int) =~= all);
        DefinitionBuilderEntries { names, taglines, descriptions, inputs, reads, displays, expansions }
    }
}

impl AxiomBuilderEntries {
    /// Gathers the entries of an axiom block, each kind in the order written.
    pub fn from_nodes(nodes: Vec<EntryNode>) -> (r: AxiomBuilderEntries)
        requires
            forall|i: int| 0 <= i < nodes@.len() ==> statement_entry(#[trigger] nodes@[i]),
        ensures
            r.names@ == select(nodes@, |n: EntryNode| name_of(n)),
            r.taglines@ == select(nodes@, |n: EntryNode| tagline_of(n)),
            r.descriptions@ == select(nodes@, |n: EntryNode| description_of(n)),
            r.flag_lists@ == select(nodes@, |n: EntryNode| flags_of(n)),
            r.vars@ == select(nodes@, |n: EntryNode| var_of(n)),
            r.premises@ == select(nodes@, |n: EntryNode| premise_of(n)),
            r.assertions@ == select(nodes@, |n: EntryNode| assertion_of(n)),
    {
        let ghost all = nodes@;
        let mut nodes = nodes;
        let mut names: Vec<String> = Vec::new();
        let mut taglines: Vec<ParagraphBuilder> = Vec::new();
        let mut descriptions: Vec<Vec<TextBuilder>> = Vec::new();
        let mut flag_lists: Vec<FlagList> = Vec::new();
        let mut vars: Vec<VariableBuilder> = Vec::new();
        let mut premises: Vec<Vec<DisplayFormulaBuilder>> = Vec::new();
        let mut assertions: Vec<DisplayFormulaBuilder> = Vec::new();
        let total = nodes.len();
        let mut k: usize = 0;
        assert(all.skip(0) =~= all);
        while nodes.len() > 0
            invariant
                0 <= k <= all.len(),
                all.len() == total,
                nodes@ == all.skip(k as int),
                names@ == select(all.take(k as int), |n: EntryNode| name_of(n)),
                taglines@ == select(all.take(k as int), |n: EntryNode| tagline_of(n)),
                descriptions@ == select(all.take(k as int), |n: EntryNode| description_of(n)),
                flag_lists@ == select(all.take(k as int), |n: EntryNode| flags_of(n)),
                vars@ == select(all.take(k as int), |n: EntryNode| var_of(n)),
                premises@ == select(all.take(k as int), |n: EntryNode| premise_of(n)),
                assertions@ == select(all.take(k as int), |n: EntryNode| assertion_of(n)),
            decreases all.len() - k,
        {
            let node = take_first(&mut nodes, Ghost(all), Ghost(k as int));
            proof {
                assert(all.take(k + 1) =~= all.take(k as int).push(node));
                lemma_select_push(all.take(k as int), node, |n: EntryNode| name_of(n));
                lemma_select_push(all.take(k as int), node, |n: EntryNode| tagline_of(n));
                lemma_select_push(all.take(k as int), node, |n: EntryNode| description_of(n));
                lemma_select_push(all.take(k as int), node, |n: EntryNode| flags_of(n));
                lemma_select_push(all.take(k as int), node, |n: EntryNode| var_of(n));
                lemma_select_push(all.take(k as int), node, |n: EntryNode| premise_of(n));
                lemma_select_push(all.take(k as int), node, |n: EntryNode| assertion_of(n));
            }
            match node {
                EntryNode::Name(v) => names.push(v),
                EntryNode::Tagline(v) => taglines.push(v),
                EntryNode::Description(v) => descriptions.push(v),
                EntryNode::Flags(v) => flag_lists.push(v),
                EntryNode::Var(v) => vars.push(v),
                EntryNode::Premise(v) => premises.push(v),
                EntryNode::Assertion(v) => assertions.push(v),
                _ => {},
            }
            k = k + 1;
        }
        assert(all.take(k as int) =~= all);
        AxiomBuilderEntries { names, taglines, descriptions, flag_lists, vars, premises, assertions }
    }
}

impl TheoremBuilderEntries {
    /// Gathers the entries of a theorem block, each kind in the order written.
    pub fn from_nodes(nodes: Vec<EntryNode>) -> (r: TheoremBuilderEntries)
        requires
            forall|i: int| 0 <= i < nodes@.len() ==> statement_entry(#[trigger] nodes@[i]),
        ensures
            r.names@ == select(nodes@, |n: EntryNode| name_of(n)),
            r.taglines@ == select(nodes@, |n: EntryNode| tagline_of(n)),
            r.descriptions@ == select(nodes@, |n: EntryNode| description_of(n)),
            r.flag_lists@ == select(nodes@, |n: EntryNode| flags_of(n)),
            r.vars@ == select(nodes@, |n: EntryNode| var_of(n)),
            r.premises@ == select(nodes@, |n: EntryNode| premise_of(n)),
            r.assertions@ == select(nodes@, |n: EntryNode| assertion_of(n)),
    {
        let ghost all = nodes@;
        let mut nodes = nodes;
        let mut names: Vec<String> = Vec::new();
        let mut taglines: Vec<ParagraphBuilder> = Vec::new();
        let mut descriptions: Vec<Vec<TextBuilder>> = Vec::new();
        let mut flag_lists: Vec<FlagList> = Vec::new();
        let mut vars: Vec<VariableBuilder> = Vec::new();
        let mut premises: Vec<Vec<DisplayFormulaBuilder>> = Vec::new();
        let mut assertions: Vec<DisplayFormulaBuilder> = Vec::new();
        let total = nodes.len();
        let mut k: usize = 0;
        assert(all.skip(0) =~= all);
        while nodes.len() > 0
            invariant
                0 <= k <= all.len(),
                all.len() == total,
                nodes@ == all.skip(k as int),
                names@ == select(all.take(k as int), |n: EntryNode| name_of(n)),
                taglines@ == select(all.take(k as int), |n: EntryNode| tagline_of(n)),
                descriptions@ == select(all.take(k as int), |n: EntryNode| description_of(n)),
                flag_lists@ == select(all.take(k as int), |n: EntryNode| flags_of(n)),
                vars@ == select(all.take(k as int), |n: EntryNode| var_of(n)),
                premises@ == select(all.take(k as int), |n: EntryNode| premise_of(n)),
                assertions@ == select(all.take(k as int), |n: EntryNode| assertion_of(n)),
            decreases all.len() - k,
        {
            let node = take_first(&mut nodes, Ghost(all), Ghost(k as int));
            proof {
                assert(all.take(k + 1) =~= all.take(k as int).push(node));
                lemma_select_push(all.take(k as int), node, |n: EntryNode| name_of(n));
                lemma_select_push(all.take(k as int), node, |n: EntryNode| tagline_of(n));
                lemma_select_push(all.take(k as int), node, |n: EntryNode| description_of(n));
                lemma_select_push(all.take(k as int), node, |n: EntryNode| flags_of(n));
                lemma_select_push(all.take(k as int), node, |n: EntryNode| var_of(n));
                lemma_select_push(all.take(k as int), node, |n: EntryNode| premise_of(n));
                lemma_select_push(all.take(k as int), node, |n: EntryNode| assertion_of(n));
            }
            match node {
                EntryNode::Name(v) => names.push(v),
                EntryNode::Tagline(v) => taglines.push(v),
                EntryNode::Description(v) => descriptions.push(v),
                EntryNode::Flags(v) => flag_lists.push(v),
                EntryNode::Var(v) => vars.push(v),
                EntryNode::Premise(v) => premises.push(v),
                EntryNode::Assertion(v) => assertions.push(v),
                _ => {},
            }
            k = k + 1;
        }
        assert(all.take(k as int) =~= all);
        TheoremBuilderEntries { names, taglines, descriptions, flag_lists, vars, premises, assertions }
    }
}

} // verus!
