//! The blocks of a document as they are gathered, on pages, in chapters, in books, and the index
//! of systems and of their children that is built from them in document order.
use vstd::prelude::*;

use super::bibliography::{
    bib_entries_errors, bib_index_run, first_occurrences, BibliographyBuilder, LocalBibliographyBuilder,
};
use super::blocks::{
    gather_texts, paragraphs_bib_refs, paragraphs_citations_known, quote_bib_refs, rows_citations_known,
    table_bib_refs, texts_bib_refs, texts_citations_known,
    heading_errors, paragraphs_check, paragraphs_no_tag_references, quote_errors, rows_no_tag_references,
    table_errors, table_rows, HeadingBuilder, ListBuilder, QuoteBuilder, TableBuilder, TextBlockBuilder,
    TodoBuilder,
};
use super::errors::{
    AxiomParsingError, BibliographyParsingError, BookParsingError, ChapterParsingError, DefinitionParsingError, ParagraphParsingError, ParsingError, ProofParsingError,
    QuoteParsingError, SymbolParsingError, SystemParsingError, TableParsingError, TextParsingError,
    ReadableParsingError, TheoremParsingError, TypeParsingError,
};
use super::index::{BuilderIndex, SystemChildEntry, SystemChildIndexError, SystemChildKind};
use super::language::{
    extended_model, inputs_model, signature_inputs, type_model, ReadBuilder, ReadSignature, ReadableBuilder,
    TypeModel, TypeSignatureBuilder, VariableBuilder,
    definition_entries_check, prose_no_tag_references, symbol_entries_check, texts_check, texts_no_tag_references,
    type_entries_check, DefinitionBuilderEntries, SymbolBuilderEntries, TypeBuilderEntries,
};
use super::system::{
    axiom_entries_check, formulas_displayable, proof_check, steps_displayable, system_entries_check,
    theorem_entries_check, AxiomBuilderEntries, ProofBuilder, SystemBuilderEntries, TheoremBuilderEntries,
};
use super::directory::{BibliographyBuilderRef, DefinitionBuilderRef, SymbolBuilderRef};
use super::system::{ProofBuilderElement, ProofBuilderStep};
use super::text::{paragraph_errors, TextBuilder, citations_known, paragraph_bib_refs, text_bib_refs, text_citations_known, math_error, no_tag_references, text_check, text_no_tag_references, ParagraphBuilder};
use crate::deduction::errors::append_mapped;
use crate::document::structure::BlockLocation;

verus! {

/// A system block.
pub struct SystemBuilder {
    pub id: String,
    pub location: BlockLocation,
    pub entries: SystemBuilderEntries,
    /// The address of the block, once it is set.
    pub href: String,
}

/// A type block, child of a system.
pub struct TypeBuilder {
    pub id: String,
    pub system_id: String,
    pub location: BlockLocation,
    pub entries: TypeBuilderEntries,
}

/// A symbol block, child of a system.
pub struct SymbolBuilder {
    pub id: String,
    pub system_id: String,
    pub location: BlockLocation,
    pub entries: SymbolBuilderEntries,
    /// The address of the block, once it is set.
    pub href: String,
}

/// A definition block, child of a system.
pub struct DefinitionBuilder {
    pub id: String,
    pub system_id: String,
    pub location: BlockLocation,
    pub entries: DefinitionBuilderEntries,
    /// The address of the block, once it is set.
    pub href: String,
}

/// An axiom block, child of a system.
pub struct AxiomBuilder {
    pub id: String,
    pub system_id: String,
    pub location: BlockLocation,
    pub entries: AxiomBuilderEntries,
    /// The address of the block, once it is set.
    pub href: String,
}

/// A theorem block, child of a system.
pub struct TheoremBuilder {
    pub id: String,
    pub system_id: String,
    pub location: BlockLocation,
    pub entries: TheoremBuilderEntries,
    /// The address of the block, once it is set.
    pub href: String,
}

/// A block of a page.
pub enum BlockBuilder {
    System(SystemBuilder),
    Type(TypeBuilder),
    Symbol(SymbolBuilder),
    Definition(DefinitionBuilder),
    Axiom(AxiomBuilder),
    Theorem(TheoremBuilder),
    Proof(ProofBuilder),

    List(ListBuilder),
    Table(TableBuilder),
    Quote(QuoteBuilder),
    Todo(TodoBuilder),
    Heading(HeadingBuilder),
    Text(TextBlockBuilder),
}

/// The number of premises of an axiom or theorem as they are written: those of its first
/// premise entry, none where it has none.
pub open spec fn premise_count<T>(premises: Seq<Vec<T>>) -> usize {
    if premises.len() > 0 {
        premises[0]@.len() as usize
    } else {
        0
    }
}

fn count_premises<T>(premises: &Vec<Vec<T>>) -> (r: usize)
    ensures
        r == premise_count(premises@),
{
    if premises.len() > 0 {
        premises[0].len()
    } else {
        0
    }
}

/// The id and serial number of a system block.
pub open spec fn block_system(block: BlockBuilder) -> Option<(Seq<char>, usize)> {
    match block {
        BlockBuilder::System(s) => Some((s.id@, s.location.serial)),
        _ => None,
    }
}

/// The system, the id and what the index keeps of a block that is the child of a system.
pub open spec fn block_child(block: BlockBuilder) -> Option<(Seq<char>, Seq<char>, SystemChildEntry)> {
    match block {
        BlockBuilder::Type(b) => Some(
            (b.system_id@, b.id@, SystemChildEntry { kind: SystemChildKind::Type, serial: b.location.serial, premises: 0 }),
        ),
        BlockBuilder::Symbol(b) => Some(
            (
                b.system_id@,
                b.id@,
                SystemChildEntry { kind: SystemChildKind::Symbol, serial: b.location.serial, premises: 0 },
            ),
        ),
        BlockBuilder::Definition(b) => Some(
            (
                b.system_id@,
                b.id@,
                SystemChildEntry { kind: SystemChildKind::Definition, serial: b.location.serial, premises: 0 },
            ),
        ),
        BlockBuilder::Axiom(b) => Some(
            (
                b.system_id@,
                b.id@,
                SystemChildEntry {
                    kind: SystemChildKind::Axiom,
                    serial: b.location.serial,
                    premises: premise_count(b.entries.premises@),
                },
            ),
        ),
        BlockBuilder::Theorem(b) => Some(
            (
                b.system_id@,
                b.id@,
                SystemChildEntry {
                    kind: SystemChildKind::Theorem,
                    serial: b.location.serial,
                    premises: premise_count(b.entries.premises@),
                },
            ),
        ),
        _ => None,
    }
}

/// The systems and children of an index, as values: each system id with its serial number, and
/// the child of a system with a given id.
pub struct IndexModel {
    pub systems: Map<Seq<char>, usize>,
    pub children: spec_fn(Seq<char>, Seq<char>) -> Option<SystemChildEntry>,
}

/// What an index holds of systems and children.
pub open spec fn index_model(index: BuilderIndex) -> IndexModel {
    IndexModel { systems: index.systems.model(), children: |s: Seq<char>, c: Seq<char>| index.child(s, c) }
}

/// Adding one block to an index: a system takes its id unless it is taken; a child is added to
/// its system unless the system is missing or has a child of that id. Gives the new index and the
/// error, if any.
pub open spec fn index_step(block: BlockBuilder, model: IndexModel) -> (IndexModel, Seq<ParsingError>) {
    match block_system(block) {
        Some((id, serial)) => if model.systems.contains_key(id) {
            (model, seq![ParsingError::SystemError(serial, SystemParsingError::IdAlreadyTaken(model.systems[id]))])
        } else {
            (IndexModel { systems: model.systems.insert(id, serial), ..model }, seq![])
        },
        None => match block_child(block) {
            Some((system_id, id, entry)) => if !model.systems.contains_key(system_id) {
                (model, seq![ParsingError::SystemChildError(entry.serial, SystemChildIndexError::ParentNotFound)])
            } else if (model.children)(system_id, id) is Some {
                (
                    model,
                    seq![
                        ParsingError::SystemChildError(
                            entry.serial,
                            SystemChildIndexError::IdAlreadyTaken((model.children)(system_id, id)->0),
                        ),
                    ],
                )
            } else {
                (
                    IndexModel {
                        children: |s: Seq<char>, c: Seq<char>|
                            if s == system_id && c == id {
                                Some(entry)
                            } else {
                                (model.children)(s, c)
                            },
                        ..model
                    },
                    seq![],
                )
            },
            None => (model, seq![]),
        },
    }
}

/// Adding the first `n` blocks of a list to an index, in order: the new index and the errors.
pub open spec fn index_run(blocks: Seq<BlockBuilder>, model: IndexModel, n: nat) -> (IndexModel, Seq<ParsingError>)
    decreases n,
{
    if n == 0 || n > blocks.len() {
        (model, seq![])
    } else {
        let before = index_run(blocks, model, (n - 1) as nat);
        let step = index_step(blocks[n - 1], before.0);
        (step.0, before.1 + step.1)
    }
}

/// Whether an index holds what a model says of systems and children.
pub open spec fn index_matches(index: BuilderIndex, model: IndexModel) -> bool {
    &&& index.systems.model() == model.systems
    &&& forall|s: Seq<char>, c: Seq<char>| #[trigger] index.child(s, c) == (model.children)(s, c)
}

impl BlockBuilder {
    /// Adds a system, or a child of a system, to the index; other blocks change nothing.
    pub fn build_index(&self, index: &mut BuilderIndex) -> (r: Option<ParsingError>)
        requires
            old(index).wf(),
        ensures
            final(index).wf(),
            ({
                let step = index_step(*self, index_model(*old(index)));
                &&& index_matches(*final(index), step.0)
                &&& match r {
                    Some(e) => step.1 == seq![e],
                    None => step.1 == Seq::<ParsingError>::empty(),
                }
            }),
            final(index).proofs == old(index).proofs,
            final(index).bib_refs == old(index).bib_refs,
            final(index).operators == old(index).operators,
    {
        let ghost before = index_model(*index);
        let child = match self {
            BlockBuilder::System(b) => {
                return match index.add_system(b.id.as_str(), b.location.serial) {
                    Some(old_serial) => {
                        proof {
                            assert(forall|s: Seq<char>, c: Seq<char>| #[trigger] index.child(s, c) == (before.children)(s, c));
                        }
                        Some(ParsingError::SystemError(b.location.serial, SystemParsingError::IdAlreadyTaken(old_serial)))
                    },
                    None => {
                        proof {
                            assert(forall|s: Seq<char>, c: Seq<char>| #[trigger] index.child(s, c) == (before.children)(s, c));
                        }
                        None
                    },
                };
            },
            BlockBuilder::Type(b) => Some(
                (
                    b.system_id.as_str(),
                    b.id.as_str(),
                    SystemChildEntry { kind: SystemChildKind::Type, serial: b.location.serial, premises: 0 },
                ),
            ),
            BlockBuilder::Symbol(b) => Some(
                (
                    b.system_id.as_str(),
                    b.id.as_str(),
                    SystemChildEntry { kind: SystemChildKind::Symbol, serial: b.location.serial, premises: 0 },
                ),
            ),
            BlockBuilder::Definition(b) => Some(
                (
                    b.system_id.as_str(),
                    b.id.as_str(),
                    SystemChildEntry { kind: SystemChildKind::Definition, serial: b.location.serial, premises: 0 },
                ),
            ),
            BlockBuilder::Axiom(b) => Some(
                (
                    b.system_id.as_str(),
                    b.id.as_str(),
                    SystemChildEntry {
                        kind: SystemChildKind::Axiom,
                        serial: b.location.serial,
                        premises: count_premises(&b.entries.premises),
                    },
                ),
            ),
            BlockBuilder::Theorem(b) => Some(
                (
                    b.system_id.as_str(),
                    b.id.as_str(),
                    SystemChildEntry {
                        kind: SystemChildKind::Theorem,
                        serial: b.location.serial,
                        premises: count_premises(&b.entries.premises),
                    },
                ),
            ),
            _ => None,
        };
        match child {
            Some((system_id, id, entry)) => {
                assert(block_child(*self) == Some((system_id@, id@, entry)));
                match index.add_system_child(system_id, id, entry) {
                    Ok(()) => {
                        proof {
                            let step = index_step(*self, before);
                            assert forall|s: Seq<char>, c: Seq<char>| #[trigger] index.child(s, c) == (step.0.children)(
                                s,
                                c,
                            ) by {}
                        }
                        None
                    },
                    Err(e) => Some(ParsingError::SystemChildError(entry.serial, e)),
                }
            },
            None => None,
        }
    }
}

/// A page: its id, its name and its blocks.
pub struct PageBuilder {
    pub id: String,
    pub name: String,
    pub blocks: Vec<BlockBuilder>,
    /// Its address, once it is set.
    pub href: String,
}

/// A chapter: its id, its name, its tagline and its pages.
pub struct ChapterBuilder {
    pub id: String,
    pub name: String,
    pub tagline: ParagraphBuilder,
    pub pages: Vec<PageBuilder>,
    /// Its address, once it is set.
    pub href: String,
}

/// A book: its id, its name, its tagline and its chapters.
pub struct BookBuilder {
    pub id: String,
    pub name: String,
    pub tagline: ParagraphBuilder,
    pub chapters: Vec<ChapterBuilder>,
    /// Its address, once it is set.
    pub href: String,
}

/// Adding the blocks of the first `n` pages of a list to an index, page by page.
pub open spec fn pages_run(pages: Seq<PageBuilder>, model: IndexModel, n: nat) -> (IndexModel, Seq<ParsingError>)
    decreases n,
{
    if n == 0 || n > pages.len() {
        (model, seq![])
    } else {
        let before = pages_run(pages, model, (n - 1) as nat);
        let blocks = pages[n - 1].blocks@;
        let page = index_run(blocks, before.0, blocks.len());
        (page.0, before.1 + page.1)
    }
}

/// Adding the blocks of the first `n` chapters of a list to an index, chapter by chapter.
pub open spec fn chapters_run(chapters: Seq<ChapterBuilder>, model: IndexModel, n: nat) -> (IndexModel, Seq<
    ParsingError,
>)
    decreases n,
{
    if n == 0 || n > chapters.len() {
        (model, seq![])
    } else {
        let before = chapters_run(chapters, model, (n - 1) as nat);
        let pages = chapters[n - 1].pages@;
        let chapter = pages_run(pages, before.0, pages.len());
        (chapter.0, before.1 + chapter.1)
    }
}

impl PageBuilder {
    /// Adds the systems and children of the page to the index, in order.
    pub fn build_index(&self, index: &mut BuilderIndex, errors: &mut Vec<ParsingError>)
        requires
            old(index).wf(),
        ensures
            final(index).wf(),
            index_matches(*final(index), index_run(self.blocks@, index_model(*old(index)), self.blocks@.len()).0),
            final(errors)@ == old(errors)@ + index_run(self.blocks@, index_model(*old(index)), self.blocks@.len()).1,
            final(index).proofs == old(index).proofs,
            final(index).bib_refs == old(index).bib_refs,
            final(index).operators == old(index).operators,
    {
        let ghost start = index_model(*index);
        let ghost start_errors = errors@;
        let mut i: usize = 0;
        while i < self.blocks.len()
            invariant
                i <= self.blocks@.len(),
                index.wf(),
                index_matches(*index, index_run(self.blocks@, start, i as nat).0),
                errors@ == start_errors + index_run(self.blocks@, start, i as nat).1,
                index.proofs == old(index).proofs,
                index.bib_refs == old(index).bib_refs,
                index.operators == old(index).operators,
            decreases self.blocks@.len() - i,
        {
            let ghost model = index_run(self.blocks@, start, i as nat).0;
            proof {
                lemma_model_of_matching(*index, model);
            }
            match self.blocks[i].build_index(index) {
                Some(e) => errors.push(e),
                None => {},
            }
            proof {
                let step = index_step(self.blocks@[i as int], model);
                assert(errors@ =~= start_errors + index_run(self.blocks@, start, (i + 1) as nat).1);
                assert forall|s: Seq<char>, c: Seq<char>| #[trigger] index.child(s, c) == (index_run(
                    self.blocks@,
                    start,
                    (i + 1) as nat,
                ).0.children)(s, c) by {}
            }
            i = i + 1;
        }
    }
}

/// An index that holds what a model says has that model, up to the children it gives.
proof fn lemma_model_of_matching(index: BuilderIndex, model: IndexModel)
    requires
        index_matches(index, model),
    ensures
        index_model(index).systems == model.systems,
        forall|s: Seq<char>, c: Seq<char>| #[trigger] (index_model(index).children)(s, c) == (model.children)(s, c),
        index_model(index) == model,
{
    assert(index_model(index).children =~= model.children);
}

impl ChapterBuilder {
    /// Adds the systems and children of the chapter to the index, page by page.
    pub fn build_index(&self, index: &mut BuilderIndex, errors: &mut Vec<ParsingError>)
        requires
            old(index).wf(),
        ensures
            final(index).wf(),
            index_matches(*final(index), pages_run(self.pages@, index_model(*old(index)), self.pages@.len()).0),
            final(errors)@ == old(errors)@ + pages_run(self.pages@, index_model(*old(index)), self.pages@.len()).1,
            final(index).proofs == old(index).proofs,
            final(index).bib_refs == old(index).bib_refs,
            final(index).operators == old(index).operators,
    {
        let ghost start = index_model(*index);
        let ghost start_errors = errors@;
        let mut i: usize = 0;
        while i < self.pages.len()
            invariant
                i <= self.pages@.len(),
                index.wf(),
                index_matches(*index, pages_run(self.pages@, start, i as nat).0),
                errors@ == start_errors + pages_run(self.pages@, start, i as nat).1,
                index.proofs == old(index).proofs,
                index.bib_refs == old(index).bib_refs,
                index.operators == old(index).operators,
            decreases self.pages@.len() - i,
        {
            proof {
                lemma_model_of_matching(*index, pages_run(self.pages@, start, i as nat).0);
            }
            self.pages[i].build_index(index, errors);
            proof {
                assert(errors@ =~= start_errors + pages_run(self.pages@, start, (i + 1) as nat).1);
            }
            i = i + 1;
        }
    }
}

impl BookBuilder {
    /// Adds the systems and children of the book to the index, chapter by chapter.
    pub fn build_index(&self, index: &mut BuilderIndex, errors: &mut Vec<ParsingError>)
        requires
            old(index).wf(),
        ensures
            final(index).wf(),
            index_matches(*final(index), chapters_run(self.chapters@, index_model(*old(index)), self.chapters@.len()).0),
            final(errors)@ == old(errors)@ + chapters_run(
                self.chapters@,
                index_model(*old(index)),
                self.chapters@.len(),
            ).1,
            final(index).proofs == old(index).proofs,
            final(index).bib_refs == old(index).bib_refs,
            final(index).operators == old(index).operators,
    {
        let ghost start = index_model(*index);
        let ghost start_errors = errors@;
        let mut i: usize = 0;
        while i < self.chapters.len()
            invariant
                i <= self.chapters@.len(),
                index.wf(),
                index_matches(*index, chapters_run(self.chapters@, start, i as nat).0),
                errors@ == start_errors + chapters_run(self.chapters@, start, i as nat).1,
                index.proofs == old(index).proofs,
                index.bib_refs == old(index).bib_refs,
                index.operators == old(index).operators,
            decreases self.chapters@.len() - i,
        {
            proof {
                lemma_model_of_matching(*index, chapters_run(self.chapters@, start, i as nat).0);
            }
            self.chapters[i].build_index(index, errors);
            proof {
                assert(errors@ =~= start_errors + chapters_run(self.chapters@, start, (i + 1) as nat).1);
            }
            i = i + 1;
        }
    }
}

proof fn lemma_system_absent(blocks: Seq<BlockBuilder>, model: IndexModel, system_id: Seq<char>, i: int, n: nat)
    requires
        0 <= n <= i <= blocks.len(),
        !model.systems.contains_key(system_id),
        forall|j: int| 0 <= j < i ==> !declares_system(#[trigger] blocks[j], system_id),
    ensures
        !index_run(blocks, model, n).0.systems.contains_key(system_id),
    decreases n,
{
    if n > 0 {
        lemma_system_absent(blocks, model, system_id, i, (n - 1) as nat);
    }
}

proof fn lemma_errors_grow(blocks: Seq<BlockBuilder>, model: IndexModel, n: nat, m: nat)
    requires
        n <= m <= blocks.len(),
    ensures
        index_run(blocks, model, n).1.len() <= index_run(blocks, model, m).1.len(),
        index_run(blocks, model, m).1.subrange(0, index_run(blocks, model, n).1.len() as int) == index_run(
            blocks,
            model,
            n,
        ).1,
    decreases m,
{
    if m > n {
        lemma_errors_grow(blocks, model, n, (m - 1) as nat);
        let shorter = index_run(blocks, model, (m - 1) as nat).1;
        let longer = index_run(blocks, model, m).1;
        assert(longer.subrange(0, shorter.len() as int) =~= shorter);
        assert(longer.subrange(0, index_run(blocks, model, n).1.len() as int) =~= shorter.subrange(
            0,
            index_run(blocks, model, n).1.len() as int,
        ));
    }
}

/// The system of a block that is a child of one.
pub open spec fn child_system(block: BlockBuilder) -> Seq<char> {
    match block_child(block) {
        Some((system_id, _, _)) => system_id,
        None => seq![],
    }
}

/// The serial number of a block that is a child of a system.
pub open spec fn child_serial(block: BlockBuilder) -> usize {
    match block_child(block) {
        Some((_, _, entry)) => entry.serial,
        None => 0,
    }
}

/// Whether a block is a system of this id.
pub open spec fn declares_system(block: BlockBuilder, system_id: Seq<char>) -> bool {
    match block_system(block) {
        Some((id, _)) => id == system_id,
        None => false,
    }
}

/// Blocks are indexed in document order: a child of a system that no earlier block declares, and
/// that the index did not hold, is refused as having no parent.
pub proof fn law_child_before_its_system_is_refused(blocks: Seq<BlockBuilder>, model: IndexModel, i: int)
    requires
        0 <= i < blocks.len(),
        block_child(blocks[i]) is Some,
        !model.systems.contains_key(child_system(blocks[i])),
        forall|j: int| 0 <= j < i ==> !declares_system(#[trigger] blocks[j], child_system(blocks[i])),
    ensures
        index_run(blocks, model, blocks.len()).1.contains(
            ParsingError::SystemChildError(child_serial(blocks[i]), SystemChildIndexError::ParentNotFound),
        ),
{
    let system_id = child_system(blocks[i]);
    lemma_system_absent(blocks, model, system_id, i, i as nat);
    let before = index_run(blocks, model, i as nat).1;
    let after = index_run(blocks, model, (i + 1) as nat).1;
    let e = ParsingError::SystemChildError(child_serial(blocks[i]), SystemChildIndexError::ParentNotFound);
    assert(after == before.push(e)) by {
        assert(after =~= before + seq![e]);
    }
    lemma_errors_grow(blocks, model, (i + 1) as nat, blocks.len());
    let all = index_run(blocks, model, blocks.len()).1;
    assert(all[before.len() as int] == after[before.len() as int]);
}

/// Indexing blocks keeps what the index held: a system keeps its serial number, a child its
/// entry.
pub proof fn law_index_keeps_what_it_held(blocks: Seq<BlockBuilder>, model: IndexModel, n: nat)
    requires
        n <= blocks.len(),
    ensures
        forall|s: Seq<char>|
            model.systems.contains_key(s) ==> #[trigger] index_run(blocks, model, n).0.systems.contains_key(s)
                && index_run(blocks, model, n).0.systems[s] == model.systems[s],
        forall|s: Seq<char>, c: Seq<char>|
            (model.children)(s, c) is Some ==> #[trigger] (index_run(blocks, model, n).0.children)(s, c) == (
            model.children)(s, c),
    decreases n,
{
    if n > 0 {
        law_index_keeps_what_it_held(blocks, model, (n - 1) as nat);
        let prev = index_run(blocks, model, (n - 1) as nat).0;
        let next = index_run(blocks, model, n).0;
        assert forall|s: Seq<char>| model.systems.contains_key(s) implies #[trigger] next.systems.contains_key(s)
            && next.systems[s] == model.systems[s] by {
            assert(prev.systems.contains_key(s));
        }
        assert forall|s: Seq<char>, c: Seq<char>| (model.children)(s, c) is Some implies #[trigger] (next.children)(
            s,
            c,
        ) == (model.children)(s, c) by {
            assert((prev.children)(s, c) == (model.children)(s, c));
        }
    }
}

/// Whether a block can be checked: the prose outside proofs refers to no tag, and the formulas
/// and steps can be displayed.
pub open spec fn block_ready(block: BlockBuilder) -> bool {
    match block {
        BlockBuilder::System(b) => prose_no_tag_references(b.entries.taglines@, b.entries.descriptions@),
        BlockBuilder::Type(b) => prose_no_tag_references(b.entries.taglines@, b.entries.descriptions@),
        BlockBuilder::Symbol(b) => prose_no_tag_references(b.entries.taglines@, b.entries.descriptions@),
        BlockBuilder::Definition(b) => {
            &&& prose_no_tag_references(b.entries.taglines@, b.entries.descriptions@)
            &&& b.entries.expansions@.len() == 1 ==> math_error(b.entries.expansions@[0].display) is None
        },
        BlockBuilder::Axiom(b) => {
            &&& prose_no_tag_references(b.entries.taglines@, b.entries.descriptions@)
            &&& formulas_displayable(b.entries.premises@, b.entries.assertions@)
        },
        BlockBuilder::Theorem(b) => {
            &&& prose_no_tag_references(b.entries.taglines@, b.entries.descriptions@)
            &&& formulas_displayable(b.entries.premises@, b.entries.assertions@)
        },
        BlockBuilder::Proof(p) => steps_displayable(p.elements@),
        BlockBuilder::List(l) => paragraphs_no_tag_references(l.items@),
        BlockBuilder::Table(t) => {
            &&& table_rows(t).len() <= usize::MAX
            &&& rows_no_tag_references(table_rows(t))
            &&& t.caption matches Some(c) ==> no_tag_references(c)
        },
        BlockBuilder::Quote(_) => true,
        BlockBuilder::Todo(t) => texts_no_tag_references(t.elements@),
        BlockBuilder::Heading(_) => true,
        BlockBuilder::Text(t) => text_no_tag_references(t.text),
    }
}

/// The errors of a block, checked against the index before the block and after it; only a proof
/// changes the index, where it records itself.
pub open spec fn block_errors(block: BlockBuilder, before: BuilderIndex, after: BuilderIndex) -> Seq<ParsingError> {
    match block {
        BlockBuilder::System(b) => system_entries_check(b.entries, before).1.map_values(
            |e: SystemParsingError| ParsingError::SystemError(b.location.serial, e),
        ),
        BlockBuilder::Type(b) => type_entries_check(b.entries, before).1.map_values(
            |e: TypeParsingError| ParsingError::TypeError(b.location.serial, e),
        ),
        BlockBuilder::Symbol(b) => symbol_entries_check(b.entries, b.system_id@, b.location.serial, before).1.map_values(
            |e: SymbolParsingError| ParsingError::SymbolError(b.location.serial, e),
        ),
        BlockBuilder::Definition(b) => definition_entries_check(
            b.entries,
            b.system_id@,
            b.location.serial,
            before,
        ).1.map_values(|e: DefinitionParsingError| ParsingError::DefinitionError(b.location.serial, e)),
        BlockBuilder::Axiom(b) => axiom_entries_check(b.entries, b.system_id@, b.location.serial, before).1.map_values(
            |e: AxiomParsingError| ParsingError::AxiomError(b.location.serial, e),
        ),
        BlockBuilder::Theorem(b) => theorem_entries_check(
            b.entries,
            b.system_id@,
            b.location.serial,
            before,
        ).1.map_values(|e: TheoremParsingError| ParsingError::TheoremError(b.location.serial, e)),
        BlockBuilder::Proof(p) => proof_check(p, before, after).map_values(
            |e: ProofParsingError| ParsingError::ProofError(p.serial, e),
        ),
        BlockBuilder::List(l) => paragraphs_check(l.items@, before, l.items@.len()).1.map_values(
            |e: (usize, ParagraphParsingError)| ParsingError::ListItemError(l.location.serial, e.0, e.1),
        ),
        BlockBuilder::Table(t) => table_errors(t, before).map_values(
            |e: TableParsingError| ParsingError::TableError(t.location.serial, e),
        ),
        BlockBuilder::Quote(q) => quote_errors(q, before).map_values(
            |e: QuoteParsingError| ParsingError::QuoteError(q.location.serial, e),
        ),
        BlockBuilder::Todo(t) => texts_check(t.elements@, before, t.elements@.len()).1.map_values(
            |e: (usize, TextParsingError)| ParsingError::TodoError(e.0, e.1),
        ),
        BlockBuilder::Heading(h) => heading_errors(h.subheadings@, h.subheadings@.len()).map_values(
            |e: (usize, usize)| ParsingError::UrlError(e.0, e.1),
        ),
        BlockBuilder::Text(t) => text_check(t.text, before, None).1.map_values(
            |e: TextParsingError| ParsingError::TextError(t.location.serial, e),
        ),
    }
}

/// Whether checking a block may take an index from `before` to `after`: only a proof changes it,
/// where it records itself as the first proof of its theorem, if it is one and has none yet.
pub open spec fn check_step(block: BlockBuilder, before: BuilderIndex, after: BuilderIndex) -> bool {
    &&& after.wf()
    &&& after.systems == before.systems
    &&& after.children == before.children
    &&& after.bib_refs == before.bib_refs
    &&& match block {
        BlockBuilder::Proof(p) => forall|s: Seq<char>, t: Seq<char>| #[trigger] after.first_proof(s, t) == (if s
            == p.system_id@ && t == p.theorem_id@ && before.first_proof(s, t) is None && (before.child(s, t) matches Some(
            c) && c.kind == SystemChildKind::Theorem) {
            Some(p.serial)
        } else {
            before.first_proof(s, t)
        }),
        _ => after == before,
    }
}

impl BlockBuilder {
    /// Checks a block; a proof is recorded with its theorem in the index, so that a later proof
    /// may use the theorem.
    pub fn verify_structure(&self, index: &mut BuilderIndex) -> (r: Vec<ParsingError>)
        requires
            old(index).wf(),
            block_ready(*self),
        ensures
            final(index).wf(),
            r@ == block_errors(*self, *old(index), *final(index)),
            check_step(*self, *old(index), *final(index)),
    {
        let mut errors: Vec<ParsingError> = Vec::new();
        match self {
            BlockBuilder::System(b) => {
                let serial = b.location.serial;
                let (_, inner) = b.entries.verify_structure(index);
                let to_error = |e: SystemParsingError| -> (r: ParsingError)
                    ensures
                        r == ParsingError::SystemError(serial, e),
                    {
                        ParsingError::SystemError(serial, e)
                    };
                append_mapped(&mut errors, &inner, to_error, Ghost(|e: SystemParsingError| ParsingError::SystemError(serial, e)));
            },
            BlockBuilder::Type(b) => {
                let serial = b.location.serial;
                let (_, inner) = b.entries.verify_structure(index);
                let to_error = |e: TypeParsingError| -> (r: ParsingError)
                    ensures
                        r == ParsingError::TypeError(serial, e),
                    {
                        ParsingError::TypeError(serial, e)
                    };
                append_mapped(&mut errors, &inner, to_error, Ghost(|e: TypeParsingError| ParsingError::TypeError(serial, e)));
            },
            BlockBuilder::Symbol(b) => {
                let serial = b.location.serial;
                let (_, inner) = b.entries.verify_structure(b.system_id.as_str(), serial, index);
                let to_error = |e: SymbolParsingError| -> (r: ParsingError)
                    ensures
                        r == ParsingError::SymbolError(serial, e),
                    {
                        ParsingError::SymbolError(serial, e)
                    };
                append_mapped(&mut errors, &inner, to_error, Ghost(|e: SymbolParsingError| ParsingError::SymbolError(serial, e)));
            },
            BlockBuilder::Definition(b) => {
                let serial = b.location.serial;
                let (_, inner) = b.entries.verify_structure(b.system_id.as_str(), serial, index);
                let to_error = |e: DefinitionParsingError| -> (r: ParsingError)
                    ensures
                        r == ParsingError::DefinitionError(serial, e),
                    {
                        ParsingError::DefinitionError(serial, e)
                    };
                append_mapped(&mut errors, &inner, to_error, Ghost(|e: DefinitionParsingError| ParsingError::DefinitionError(serial, e)));
            },
            BlockBuilder::Axiom(b) => {
                let serial = b.location.serial;
                let (_, inner) = b.entries.verify_structure(b.system_id.as_str(), serial, index);
                let to_error = |e: AxiomParsingError| -> (r: ParsingError)
                    ensures
                        r == ParsingError::AxiomError(serial, e),
                    {
                        ParsingError::AxiomError(serial, e)
                    };
                append_mapped(&mut errors, &inner, to_error, Ghost(|e: AxiomParsingError| ParsingError::AxiomError(serial, e)));
            },
            BlockBuilder::Theorem(b) => {
                let serial = b.location.serial;
                let (_, inner) = b.entries.verify_structure(b.system_id.as_str(), serial, index);
                let to_error = |e: TheoremParsingError| -> (r: ParsingError)
                    ensures
                        r == ParsingError::TheoremError(serial, e),
                    {
                        ParsingError::TheoremError(serial, e)
                    };
                append_mapped(&mut errors, &inner, to_error, Ghost(|e: TheoremParsingError| ParsingError::TheoremError(serial, e)));
            },
            BlockBuilder::Proof(p) => {
                let serial = p.serial;
                let inner = p.verify_structure(index);
                let to_error = |e: ProofParsingError| -> (r: ParsingError)
                    ensures
                        r == ParsingError::ProofError(serial, e),
                    {
                        ParsingError::ProofError(serial, e)
                    };
                append_mapped(&mut errors, &inner, to_error, Ghost(|e: ProofParsingError| ParsingError::ProofError(serial, e)));
            },
            BlockBuilder::List(l) => {
                let serial = l.location.serial;
                let inner = l.verify_structure(index);
                let to_error = |e: (usize, ParagraphParsingError)| -> (r: ParsingError)
                    ensures
                        r == ParsingError::ListItemError(serial, e.0, e.1),
                    {
                        ParsingError::ListItemError(serial, e.0, e.1)
                    };
                append_mapped(&mut errors, &inner, to_error, Ghost(|e: (usize, ParagraphParsingError)| ParsingError::ListItemError(serial, e.0, e.1)));
            },
            BlockBuilder::Table(t) => {
                let serial = t.location.serial;
                let inner = t.verify_structure(index);
                let to_error = |e: TableParsingError| -> (r: ParsingError)
                    ensures
                        r == ParsingError::TableError(serial, e),
                    {
                        ParsingError::TableError(serial, e)
                    };
                append_mapped(&mut errors, &inner, to_error, Ghost(|e: TableParsingError| ParsingError::TableError(serial, e)));
            },
            BlockBuilder::Quote(q) => {
                let serial = q.location.serial;
                let inner = q.verify_structure(index);
                let to_error = |e: QuoteParsingError| -> (r: ParsingError)
                    ensures
                        r == ParsingError::QuoteError(serial, e),
                    {
                        ParsingError::QuoteError(serial, e)
                    };
                append_mapped(&mut errors, &inner, to_error, Ghost(|e: QuoteParsingError| ParsingError::QuoteError(serial, e)));
            },
            BlockBuilder::Todo(t) => {
                let inner = t.verify_structure(index);
                let to_error = |e: (usize, TextParsingError)| -> (r: ParsingError)
                    ensures
                        r == ParsingError::TodoError(e.0, e.1),
                    {
                        ParsingError::TodoError(e.0, e.1)
                    };
                append_mapped(&mut errors, &inner, to_error, Ghost(|e: (usize, TextParsingError)| ParsingError::TodoError(e.0, e.1)));
            },
            BlockBuilder::Heading(h) => {
                let inner = h.verify_structure();
                let to_error = |e: (usize, usize)| -> (r: ParsingError)
                    ensures
                        r == ParsingError::UrlError(e.0, e.1),
                    {
                        ParsingError::UrlError(e.0, e.1)
                    };
                append_mapped(&mut errors, &inner, to_error, Ghost(|e: (usize, usize)| ParsingError::UrlError(e.0, e.1)));
            },
            BlockBuilder::Text(t) => {
                let serial = t.location.serial;
                let (_, inner) = t.verify_structure(index);
                let to_error = |e: TextParsingError| -> (r: ParsingError)
                    ensures
                        r == ParsingError::TextError(serial, e),
                    {
                        ParsingError::TextError(serial, e)
                    };
                append_mapped(&mut errors, &inner, to_error, Ghost(|e: TextParsingError| ParsingError::TextError(serial, e)));
            },
        }
        assert(errors@ =~= block_errors(*self, *old(index), *index));
        errors
    }
}

/// The entries that the prose of a block cites: its tagline, then the texts of its description.
pub open spec fn prose_bib_refs(
    taglines: Seq<ParagraphBuilder>,
    descriptions: Seq<Vec<TextBuilder>>,
    index: BuilderIndex,
) -> Seq<BibliographyBuilderRef> {
    paragraph_bib_refs(taglines[0], index) + if descriptions.len() > 0 {
        texts_bib_refs(descriptions[0]@, index, descriptions[0]@.len())
    } else {
        seq![]
    }
}

/// Whether the prose of a block was accepted as to its tagline and description, and every key
/// it cites names an entry of the bibliography.
pub open spec fn prose_bib_ready(
    taglines: Seq<ParagraphBuilder>,
    descriptions: Seq<Vec<TextBuilder>>,
    index: BuilderIndex,
) -> bool {
    &&& taglines.len() > 0
    &&& citations_known(taglines[0], index)
    &&& descriptions.len() > 0 ==> texts_citations_known(descriptions[0]@, index)
}

fn prose_refs(taglines: &Vec<ParagraphBuilder>, descriptions: &Vec<Vec<TextBuilder>>, index: &BuilderIndex) -> (r: Vec<
    BibliographyBuilderRef,
>)
    requires
        index.wf(),
        prose_bib_ready(taglines@, descriptions@, *index),
    ensures
        r@ == prose_bib_refs(taglines@, descriptions@, *index),
{
    let mut refs = taglines[0].bib_refs(index);
    if descriptions.len() > 0 {
        gather_texts(&descriptions[0], index, &mut refs);
    } else {
        assert(refs@ =~= refs@ + Seq::<BibliographyBuilderRef>::empty());
    }
    refs
}

/// The entries that the first `n` elements of a proof cite: those of its texts, in order.
pub open spec fn proof_bib_refs(elements: Seq<ProofBuilderElement>, index: BuilderIndex, n: nat) -> Seq<
    BibliographyBuilderRef,
>
    decreases n,
{
    if n == 0 || n > elements.len() {
        seq![]
    } else {
        proof_bib_refs(elements, index, (n - 1) as nat) + match elements[n - 1] {
            ProofBuilderElement::Text(text) => text_bib_refs(text, index),
            ProofBuilderElement::Step(_) => seq![],
        }
    }
}

/// Whether every key that the texts of a proof cite names an entry of the bibliography.
pub open spec fn proof_citations_known(elements: Seq<ProofBuilderElement>, index: BuilderIndex) -> bool {
    forall|i: int|
        0 <= i < elements.len() ==> (#[trigger] elements[i] matches ProofBuilderElement::Text(t) ==> text_citations_known(
            t,
            index,
        ))
}

/// The entries that a block cites, in order, once for each citation.
pub open spec fn block_bib_refs(block: BlockBuilder, index: BuilderIndex) -> Seq<BibliographyBuilderRef> {
    match block {
        BlockBuilder::System(b) => prose_bib_refs(b.entries.taglines@, b.entries.descriptions@, index),
        BlockBuilder::Type(b) => prose_bib_refs(b.entries.taglines@, b.entries.descriptions@, index),
        BlockBuilder::Symbol(b) => prose_bib_refs(b.entries.taglines@, b.entries.descriptions@, index),
        BlockBuilder::Definition(b) => prose_bib_refs(b.entries.taglines@, b.entries.descriptions@, index),
        BlockBuilder::Axiom(b) => prose_bib_refs(b.entries.taglines@, b.entries.descriptions@, index),
        BlockBuilder::Theorem(b) => prose_bib_refs(b.entries.taglines@, b.entries.descriptions@, index),
        BlockBuilder::Proof(p) => proof_bib_refs(p.elements@, index, p.elements@.len()),
        BlockBuilder::List(l) => paragraphs_bib_refs(l.items@, index, l.items@.len()),
        BlockBuilder::Table(t) => table_bib_refs(t, index),
        BlockBuilder::Quote(q) => quote_bib_refs(q, index),
        BlockBuilder::Todo(t) => texts_bib_refs(t.elements@, index, t.elements@.len()),
        BlockBuilder::Heading(_) => seq![],
        BlockBuilder::Text(t) => text_bib_refs(t.text, index),
    }
}

/// Whether a block was accepted as far as its citations go: the fields its citations are taken
/// from are there, and every key it cites names an entry of the bibliography.
pub open spec fn block_bib_ready(block: BlockBuilder, index: BuilderIndex) -> bool {
    match block {
        BlockBuilder::System(b) => prose_bib_ready(b.entries.taglines@, b.entries.descriptions@, index),
        BlockBuilder::Type(b) => prose_bib_ready(b.entries.taglines@, b.entries.descriptions@, index),
        BlockBuilder::Symbol(b) => prose_bib_ready(b.entries.taglines@, b.entries.descriptions@, index),
        BlockBuilder::Definition(b) => prose_bib_ready(b.entries.taglines@, b.entries.descriptions@, index),
        BlockBuilder::Axiom(b) => prose_bib_ready(b.entries.taglines@, b.entries.descriptions@, index),
        BlockBuilder::Theorem(b) => prose_bib_ready(b.entries.taglines@, b.entries.descriptions@, index),
        BlockBuilder::Proof(p) => proof_citations_known(p.elements@, index),
        BlockBuilder::List(l) => paragraphs_citations_known(l.items@, index),
        BlockBuilder::Table(t) => {
            &&& table_rows(t).len() <= usize::MAX
            &&& rows_citations_known(table_rows(t), index)
            &&& t.caption matches Some(c) ==> citations_known(c, index)
        },
        BlockBuilder::Quote(q) => quote_errors(q, index).len() == 0,
        BlockBuilder::Todo(t) => texts_citations_known(t.elements@, index),
        BlockBuilder::Heading(_) => true,
        BlockBuilder::Text(t) => text_citations_known(t.text, index),
    }
}

impl ProofBuilder {
    /// The entries that the texts of the proof cite, in order.
    pub fn bib_refs(&self, index: &BuilderIndex) -> (r: Vec<BibliographyBuilderRef>)
        requires
            index.wf(),
            proof_citations_known(self.elements@, *index),
        ensures
            r@ == proof_bib_refs(self.elements@, *index, self.elements@.len()),
    {
        let mut refs: Vec<BibliographyBuilderRef> = Vec::new();
        let mut i: usize = 0;
        while i < self.elements.len()
            invariant
                i <= self.elements@.len(),
                index.wf(),
                proof_citations_known(self.elements@, *index),
                refs@ == proof_bib_refs(self.elements@, *index, i as nat),
            decreases self.elements@.len() - i,
        {
            match &self.elements[i] {
                ProofBuilderElement::Text(text) => {
                    let mut more = text.bib_refs(index);
                    refs.append(&mut more);
                },
                ProofBuilderElement::Step(_) => {
                    assert(refs@ =~= refs@ + Seq::<BibliographyBuilderRef>::empty());
                },
            }
            i = i + 1;
        }
        refs
    }
}

impl BlockBuilder {
    /// The entries that the block cites, in order, once for each citation.
    pub fn bib_refs(&self, index: &BuilderIndex) -> (r: Vec<BibliographyBuilderRef>)
        requires
            index.wf(),
            block_bib_ready(*self, *index),
        ensures
            r@ == block_bib_refs(*self, *index),
    {
        match self {
            BlockBuilder::System(b) => prose_refs(&b.entries.taglines, &b.entries.descriptions, index),
            BlockBuilder::Type(b) => prose_refs(&b.entries.taglines, &b.entries.descriptions, index),
            BlockBuilder::Symbol(b) => prose_refs(&b.entries.taglines, &b.entries.descriptions, index),
            BlockBuilder::Definition(b) => prose_refs(&b.entries.taglines, &b.entries.descriptions, index),
            BlockBuilder::Axiom(b) => prose_refs(&b.entries.taglines, &b.entries.descriptions, index),
            BlockBuilder::Theorem(b) => prose_refs(&b.entries.taglines, &b.entries.descriptions, index),
            BlockBuilder::Proof(p) => p.bib_refs(index),
            BlockBuilder::List(l) => l.bib_refs(index),
            BlockBuilder::Table(t) => t.bib_refs(index),
            BlockBuilder::Quote(q) => q.bib_refs(index),
            BlockBuilder::Todo(t) => t.bib_refs(index),
            BlockBuilder::Heading(h) => h.bib_refs(),
            BlockBuilder::Text(t) => t.bib_refs(index),
        }
    }
}

/// The entries that the first `n` blocks of a page cite, block by block.
pub open spec fn blocks_bib_refs(blocks: Seq<BlockBuilder>, index: BuilderIndex, n: nat) -> Seq<BibliographyBuilderRef>
    decreases n,
{
    if n == 0 || n > blocks.len() {
        seq![]
    } else {
        blocks_bib_refs(blocks, index, (n - 1) as nat) + block_bib_refs(blocks[n - 1], index)
    }
}

impl PageBuilder {
    /// The local bibliography of the page: the entries its blocks cite, each once, in the order
    /// in which they are first cited; with, for each citation in order, the number of its entry.
    pub fn build_local_bib(&self, index: &BuilderIndex) -> (r: (LocalBibliographyBuilder, Vec<usize>))
        requires
            index.wf(),
            forall|i: int| 0 <= i < self.blocks@.len() ==> block_bib_ready(#[trigger] self.blocks@[i], *index),
        ensures
            ({
                let citations = blocks_bib_refs(self.blocks@, *index, self.blocks@.len());
                &&& r.0.entries@ == first_occurrences(citations)
                &&& r.1@.len() == citations.len()
                &&& forall|i: int|
                    0 <= i < citations.len() ==> #[trigger] r.1@[i] < r.0.entries@.len() && r.0.entries@[r.1@[i] as int]
                        == citations[i]
            }),
    {
        let mut citations: Vec<BibliographyBuilderRef> = Vec::new();
        let mut i: usize = 0;
        while i < self.blocks.len()
            invariant
                i <= self.blocks@.len(),
                index.wf(),
                forall|k: int| 0 <= k < self.blocks@.len() ==> block_bib_ready(#[trigger] self.blocks@[k], *index),
                citations@ == blocks_bib_refs(self.blocks@, *index, i as nat),
            decreases self.blocks@.len() - i,
        {
            let mut more = self.blocks[i].bib_refs(index);
            citations.append(&mut more);
            i = i + 1;
        }
        LocalBibliographyBuilder::new(&citations)
    }
}

/// Whether `states` are the indexes that checking the first `n` blocks passes through, one
/// before each block and one after the last.
pub open spec fn valid_chain(blocks: Seq<BlockBuilder>, states: Seq<BuilderIndex>, n: nat) -> bool {
    &&& n <= blocks.len()
    &&& states.len() == n + 1
    &&& forall|k: int| 0 <= k < n ==> #[trigger] check_step(blocks[k], states[k], states[k + 1])
}

/// The errors of the first `n` blocks, each checked against the index it found.
pub open spec fn chain_errors(blocks: Seq<BlockBuilder>, states: Seq<BuilderIndex>, n: nat) -> Seq<ParsingError>
    decreases n,
{
    if n == 0 || n > blocks.len() {
        seq![]
    } else {
        chain_errors(blocks, states, (n - 1) as nat) + block_errors(blocks[n - 1], states[n - 1], states[n as int])
    }
}

/// Whether checking a page may take an index from `before` to `after` with these errors: its
/// blocks are checked in order, each against the index that the blocks before it left.
pub open spec fn page_check(page: PageBuilder, before: BuilderIndex, after: BuilderIndex, errors: Seq<ParsingError>) -> bool {
    exists|states: Seq<BuilderIndex>| #[trigger]
        page_witness(page, before, after, errors, states)
}

/// A sequence of indexes that shows `page_check`.
pub open spec fn page_witness(
    page: PageBuilder,
    before: BuilderIndex,
    after: BuilderIndex,
    errors: Seq<ParsingError>,
    states: Seq<BuilderIndex>,
) -> bool {
    &&& valid_chain(page.blocks@, states, page.blocks@.len())
    &&& states[0] == before
    &&& states[page.blocks@.len() as int] == after
    &&& errors == chain_errors(page.blocks@, states, page.blocks@.len())
}

/// Whether the blocks of a page can be checked.
pub open spec fn page_ready(page: PageBuilder) -> bool {
    forall|i: int| 0 <= i < page.blocks@.len() ==> block_ready(#[trigger] page.blocks@[i])
}

impl PageBuilder {
    /// Checks the blocks of the page in order, appending their errors; a proof is recorded with
    /// its theorem, so that a later proof may use the theorem.
    pub fn verify_structure(&self, index: &mut BuilderIndex, errors: &mut Vec<ParsingError>)
        requires
            old(index).wf(),
            page_ready(*self),
        ensures
            final(index).wf(),
            final(errors)@.len() >= old(errors)@.len(),
            final(errors)@.subrange(0, old(errors)@.len() as int) == old(errors)@,
            page_check(*self, *old(index), *final(index), final(errors)@.subrange(old(errors)@.len() as int, final(errors)@.len() as int)),
    {
        let ghost start_errors = errors@;
        let ghost mut states: Seq<BuilderIndex> = seq![*index];
        let mut i: usize = 0;
        while i < self.blocks.len()
            invariant
                i <= self.blocks@.len(),
                index.wf(),
                page_ready(*self),
                valid_chain(self.blocks@, states, i as nat),
                states[0] == *old(index),
                states[i as int] == *index,
                errors@ == start_errors + chain_errors(self.blocks@, states, i as nat),
            decreases self.blocks@.len() - i,
        {
            let mut more = self.blocks[i].verify_structure(index);
            errors.append(&mut more);
            proof {
                let next = states.push(*index);
                assert(chain_errors(self.blocks@, next, i as nat) == chain_errors(self.blocks@, states, i as nat)) by {
                    lemma_chain_errors_extend(self.blocks@, states, next, i as nat);
                }
                states = next;
                assert(errors@ =~= start_errors + chain_errors(self.blocks@, states, (i + 1) as nat));
            }
            i = i + 1;
        }
        proof {
            let new_errors = errors@.subrange(start_errors.len() as int, errors@.len() as int);
            assert(new_errors =~= chain_errors(self.blocks@, states, self.blocks@.len()));
            assert(errors@.subrange(0, start_errors.len() as int) =~= start_errors);
            assert(page_witness(*self, *old(index), *index, new_errors, states));
        }
    }
}

/// Errors of a chain do not depend on the states after it.
proof fn lemma_chain_errors_extend(blocks: Seq<BlockBuilder>, states: Seq<BuilderIndex>, longer: Seq<BuilderIndex>, n: nat)
    requires
        states.len() == n + 1,
        longer.len() >= n + 1,
        forall|k: int| 0 <= k <= n ==> longer[k] == states[k],
    ensures
        chain_errors(blocks, longer, n) == chain_errors(blocks, states, n),
    decreases n,
{
    if n > 0 {
        lemma_chain_errors_extend(blocks, states.drop_last(), longer, (n - 1) as nat);
        lemma_chain_errors_extend(blocks, states.drop_last(), states, (n - 1) as nat);
    }
}

/// The parts of a list of errors, joined in order.
pub open spec fn joined(parts: Seq<Seq<ParsingError>>) -> Seq<ParsingError>
    decreases parts.len(),
{
    if parts.len() == 0 {
        seq![]
    } else {
        joined(parts.drop_last()) + parts.last()
    }
}

/// Whether `states` and `parts` show how checking the pages of a chapter goes: each page takes
/// the index from one state to the next with its part of the errors.
pub open spec fn pages_witness(
    pages: Seq<PageBuilder>,
    before: BuilderIndex,
    after: BuilderIndex,
    states: Seq<BuilderIndex>,
    parts: Seq<Seq<ParsingError>>,
) -> bool {
    &&& states.len() == pages.len() + 1
    &&& parts.len() == pages.len()
    &&& states[0] == before
    &&& states[pages.len() as int] == after
    &&& forall|k: int| 0 <= k < pages.len() ==> #[trigger] page_check(pages[k], states[k], states[k + 1], parts[k])
}

/// Whether checking a chapter, the chapter at `position` of its book, may take an index from
/// `before` to `after` with these errors: those of its tagline, then those of its pages in order.
pub open spec fn chapter_check(
    chapter: ChapterBuilder,
    position: usize,
    before: BuilderIndex,
    after: BuilderIndex,
    errors: Seq<ParsingError>,
) -> bool {
    exists|states: Seq<BuilderIndex>, parts: Seq<Seq<ParsingError>>| #[trigger]
        pages_witness(chapter.pages@, before, after, states, parts) && errors == paragraph_errors(
            chapter.tagline,
            before,
            None,
        ).map_values(|e: ParagraphParsingError| ParsingError::ChapterError(position, ChapterParsingError::TaglineError(e)))
            + joined(parts)
}

/// Whether a chapter can be checked.
pub open spec fn chapter_ready(chapter: ChapterBuilder) -> bool {
    &&& no_tag_references(chapter.tagline)
    &&& forall|i: int| 0 <= i < chapter.pages@.len() ==> page_ready(#[trigger] chapter.pages@[i])
}

/// Appends the errors of a tagline.
fn push_tagline_errors(
    tagline: &ParagraphBuilder,
    index: &BuilderIndex,
    errors: &mut Vec<ParsingError>,
    chapter: Option<usize>,
    book: usize,
)
    requires
        index.wf(),
        no_tag_references(*tagline),
    ensures
        final(errors)@ == old(errors)@ + paragraph_errors(*tagline, *index, None).map_values(
            |e: ParagraphParsingError| match chapter {
                Some(position) => ParsingError::ChapterError(position, ChapterParsingError::TaglineError(e)),
                None => ParsingError::BookError(book, BookParsingError::TaglineError(e)),
            },
        ),
{
    let (_, inner) = tagline.verify_structure(index);
    let to_error = |e: ParagraphParsingError| -> (r: ParsingError)
        ensures
            r == match chapter {
                Some(position) => ParsingError::ChapterError(position, ChapterParsingError::TaglineError(e)),
                None => ParsingError::BookError(book, BookParsingError::TaglineError(e)),
            },
        {
            match chapter {
                Some(position) => ParsingError::ChapterError(position, ChapterParsingError::TaglineError(e)),
                None => ParsingError::BookError(book, BookParsingError::TaglineError(e)),
            }
        };
    append_mapped(
        errors,
        &inner,
        to_error,
        Ghost(
            |e: ParagraphParsingError| match chapter {
                Some(position) => ParsingError::ChapterError(position, ChapterParsingError::TaglineError(e)),
                None => ParsingError::BookError(book, BookParsingError::TaglineError(e)),
            },
        ),
    );
}

impl ChapterBuilder {
    /// Checks the tagline of the chapter, then its pages in order, appending the errors; the
    /// chapter is the one at `position` in its book.
    pub fn verify_structure(&self, position: usize, index: &mut BuilderIndex, errors: &mut Vec<ParsingError>)
        requires
            old(index).wf(),
            chapter_ready(*self),
        ensures
            final(index).wf(),
            final(errors)@.len() >= old(errors)@.len(),
            final(errors)@.subrange(0, old(errors)@.len() as int) == old(errors)@,
            chapter_check(
                *self,
                position,
                *old(index),
                *final(index),
                final(errors)@.subrange(old(errors)@.len() as int, final(errors)@.len() as int),
            ),
    {
        let ghost start_errors = errors@;
        push_tagline_errors(&self.tagline, index, errors, Some(position), 0);
        let ghost tagline_errors = errors@.subrange(start_errors.len() as int, errors@.len() as int);
        assert(tagline_errors =~= paragraph_errors(self.tagline, *index, None).map_values(
            |e: ParagraphParsingError| ParsingError::ChapterError(position, ChapterParsingError::TaglineError(e)),
        ));
        let ghost mut states: Seq<BuilderIndex> = seq![*index];
        let ghost mut parts: Seq<Seq<ParsingError>> = seq![];
        let mut i: usize = 0;
        while i < self.pages.len()
            invariant
                i <= self.pages@.len(),
                index.wf(),
                chapter_ready(*self),
                states.len() == i + 1,
                parts.len() == i,
                states[0] == *old(index),
                states[i as int] == *index,
                forall|k: int| 0 <= k < i ==> #[trigger] page_check(self.pages@[k], states[k], states[k + 1], parts[k]),
                errors@ == start_errors + tagline_errors + joined(parts),
            decreases self.pages@.len() - i,
        {
            let ghost before_errors = errors@;
            self.pages[i].verify_structure(index, errors);
            proof {
                let part = errors@.subrange(before_errors.len() as int, errors@.len() as int);
                let new_states = states.push(*index);
                let new_parts = parts.push(part);
                assert(joined(new_parts) == joined(parts) + part) by {
                    assert(new_parts.drop_last() =~= parts);
                }
                assert(errors@ =~= before_errors + part);
                assert forall|k: int| 0 <= k < i + 1 implies #[trigger] page_check(
                    self.pages@[k],
                    new_states[k],
                    new_states[k + 1],
                    new_parts[k],
                ) by {
                    if k < i {
                        assert(new_states[k] == states[k]);
                        assert(new_states[k + 1] == states[k + 1]);
                        assert(new_parts[k] == parts[k]);
                    }
                }
                states = new_states;
                parts = new_parts;
            }
            i = i + 1;
        }
        proof {
            let new_errors = errors@.subrange(start_errors.len() as int, errors@.len() as int);
            assert(new_errors =~= tagline_errors + joined(parts));
            assert(errors@.subrange(0, start_errors.len() as int) =~= start_errors);
            assert(pages_witness(self.pages@, *old(index), *index, states, parts));
        }
    }
}

/// Whether `states` and `parts` show how checking the chapters of a book goes.
pub open spec fn chapters_witness(
    chapters: Seq<ChapterBuilder>,
    before: BuilderIndex,
    after: BuilderIndex,
    states: Seq<BuilderIndex>,
    parts: Seq<Seq<ParsingError>>,
) -> bool {
    &&& states.len() == chapters.len() + 1
    &&& parts.len() == chapters.len()
    &&& states[0] == before
    &&& states[chapters.len() as int] == after
    &&& forall|k: int|
        0 <= k < chapters.len() ==> #[trigger] chapter_check(chapters[k], k as usize, states[k], states[k + 1], parts[k])
}

/// Whether checking a book, the book at `position` of the library, may take an index from
/// `before` to `after` with these errors: those of its tagline, then those of its chapters in
/// order.
pub open spec fn book_check(
    book: BookBuilder,
    position: usize,
    before: BuilderIndex,
    after: BuilderIndex,
    errors: Seq<ParsingError>,
) -> bool {
    exists|states: Seq<BuilderIndex>, parts: Seq<Seq<ParsingError>>| #[trigger]
        chapters_witness(book.chapters@, before, after, states, parts) && errors == paragraph_errors(
            book.tagline,
            before,
            None,
        ).map_values(|e: ParagraphParsingError| ParsingError::BookError(position, BookParsingError::TaglineError(e)))
            + joined(parts)
}

/// Whether a book can be checked.
pub open spec fn book_ready(book: BookBuilder) -> bool {
    &&& no_tag_references(book.tagline)
    &&& forall|i: int| 0 <= i < book.chapters@.len() ==> chapter_ready(#[trigger] book.chapters@[i])
}

impl BookBuilder {
    /// Checks the tagline of the book, then its chapters in order, appending the errors; the book
    /// is the one at `position` in the library.
    pub fn verify_structure(&self, position: usize, index: &mut BuilderIndex, errors: &mut Vec<ParsingError>)
        requires
            old(index).wf(),
            book_ready(*self),
        ensures
            final(index).wf(),
            final(errors)@.len() >= old(errors)@.len(),
            final(errors)@.subrange(0, old(errors)@.len() as int) == old(errors)@,
            book_check(
                *self,
                position,
                *old(index),
                *final(index),
                final(errors)@.subrange(old(errors)@.len() as int, final(errors)@.len() as int),
            ),
    {
        let ghost start_errors = errors@;
        push_tagline_errors(&self.tagline, index, errors, None, position);
        let ghost tagline_errors = errors@.subrange(start_errors.len() as int, errors@.len() as int);
        assert(tagline_errors =~= paragraph_errors(self.tagline, *index, None).map_values(
            |e: ParagraphParsingError| ParsingError::BookError(position, BookParsingError::TaglineError(e)),
        ));
        let ghost mut states: Seq<BuilderIndex> = seq![*index];
        let ghost mut parts: Seq<Seq<ParsingError>> = seq![];
        let mut i: usize = 0;
        while i < self.chapters.len()
            invariant
                i <= self.chapters@.len(),
                index.wf(),
                book_ready(*self),
                states.len() == i + 1,
                parts.len() == i,
                states[0] == *old(index),
                states[i as int] == *index,
                forall|k: int|
                    0 <= k < i ==> #[trigger] chapter_check(self.chapters@[k], k as usize, states[k], states[k + 1], parts[k]),
                errors@ == start_errors + tagline_errors + joined(parts),
            decreases self.chapters@.len() - i,
        {
            let ghost before_errors = errors@;
            self.chapters[i].verify_structure(i, index, errors);
            proof {
                let part = errors@.subrange(before_errors.len() as int, errors@.len() as int);
                let new_states = states.push(*index);
                let new_parts = parts.push(part);
                assert(joined(new_parts) == joined(parts) + part) by {
                    assert(new_parts.drop_last() =~= parts);
                }
                assert(errors@ =~= before_errors + part);
                assert forall|k: int| 0 <= k < i + 1 implies #[trigger] chapter_check(
                    self.chapters@[k],
                    k as usize,
                    new_states[k],
                    new_states[k + 1],
                    new_parts[k],
                ) by {
                    if k < i {
                        assert(new_states[k] == states[k]);
                        assert(new_states[k + 1] == states[k + 1]);
                        assert(new_parts[k] == parts[k]);
                    }
                }
                states = new_states;
                parts = new_parts;
            }
            i = i + 1;
        }
        proof {
            let new_errors = errors@.subrange(start_errors.len() as int, errors@.len() as int);
            assert(new_errors =~= tagline_errors + joined(parts));
            assert(errors@.subrange(0, start_errors.len() as int) =~= start_errors);
            assert(chapters_witness(self.chapters@, *old(index), *index, states, parts));
        }
    }
}

/// The books of a library and its bibliography, as they were read.
pub struct ManifestBuilder {
    pub books: Vec<BookBuilder>,
    pub bibliography: Option<BibliographyBuilder>,
}

/// Adding the blocks of the first `n` books of a list to an index, book by book.
pub open spec fn books_run(books: Seq<BookBuilder>, model: IndexModel, n: nat) -> (IndexModel, Seq<ParsingError>)
    decreases n,
{
    if n == 0 || n > books.len() {
        (model, seq![])
    } else {
        let before = books_run(books, model, (n - 1) as nat);
        let chapters = books[n - 1].chapters@;
        let book = chapters_run(chapters, before.0, chapters.len());
        (book.0, before.1 + book.1)
    }
}

/// An index with nothing in it.
pub open spec fn empty_model() -> IndexModel {
    IndexModel { systems: Map::empty(), children: |s: Seq<char>, c: Seq<char>| None }
}

/// The errors of the entries of a bibliography, if there is one, each with the position of its
/// entry.
pub open spec fn tagged_bib_errors(errors: Seq<(usize, BibliographyParsingError)>) -> Seq<ParsingError> {
    errors.map_values(|e: (usize, BibliographyParsingError)| ParsingError::BibliographyError(e.0, e.1))
}

/// The errors of building the index of a library: those of its books, then those of the keys of
/// its bibliography.
pub open spec fn index_errors(manifest: ManifestBuilder) -> Seq<ParsingError> {
    books_run(manifest.books@, empty_model(), manifest.books@.len()).1 + match manifest.bibliography {
        Some(bib) => tagged_bib_errors(bib_index_run(bib.entries@, Map::empty(), bib.entries@.len()).1),
        None => seq![],
    }
}

/// Whether an index holds what building the index of a library leaves in it, and nothing else.
pub open spec fn indexed(manifest: ManifestBuilder, index: BuilderIndex) -> bool {
    &&& index.wf()
    &&& index_matches(index, books_run(manifest.books@, empty_model(), manifest.books@.len()).0)
    &&& index.bib_refs.model() == match manifest.bibliography {
        Some(bib) => bib_index_run(bib.entries@, Map::empty(), bib.entries@.len()).0,
        None => Map::empty(),
    }
    &&& forall|s: Seq<char>, t: Seq<char>| #[trigger] index.first_proof(s, t) is None
}

/// Whether `states` and `parts` show how checking the books of a library goes.
pub open spec fn books_witness(
    books: Seq<BookBuilder>,
    before: BuilderIndex,
    after: BuilderIndex,
    states: Seq<BuilderIndex>,
    parts: Seq<Seq<ParsingError>>,
) -> bool {
    &&& states.len() == books.len() + 1
    &&& parts.len() == books.len()
    &&& states[0] == before
    &&& states[books.len() as int] == after
    &&& forall|k: int| 0 <= k < books.len() ==> #[trigger] book_check(books[k], k as usize, states[k], states[k + 1], parts[k])
}

/// Whether checking a library may take an index from `before` to `after` with these errors:
/// those of its books in order, then those of its bibliography.
pub open spec fn library_check(
    manifest: ManifestBuilder,
    before: BuilderIndex,
    after: BuilderIndex,
    errors: Seq<ParsingError>,
) -> bool {
    exists|states: Seq<BuilderIndex>, parts: Seq<Seq<ParsingError>>| #[trigger]
        books_witness(manifest.books@, before, after, states, parts) && errors == joined(parts) + match manifest.bibliography {
            Some(bib) => tagged_bib_errors(bib_entries_errors(bib.entries@, bib.entries@.len())),
            None => seq![],
        }
}

/// Appends the errors of a bibliography, each with the position of its entry.
fn push_bib_errors(found: &Vec<(usize, BibliographyParsingError)>, errors: &mut Vec<ParsingError>)
    ensures
        final(errors)@ == old(errors)@ + tagged_bib_errors(found@),
{
    let to_error = |e: (usize, BibliographyParsingError)| -> (r: ParsingError)
        ensures
            r == ParsingError::BibliographyError(e.0, e.1),
        {
            ParsingError::BibliographyError(e.0, e.1)
        };
    append_mapped(
        errors,
        found,
        to_error,
        Ghost(|e: (usize, BibliographyParsingError)| ParsingError::BibliographyError(e.0, e.1)),
    );
}

impl ManifestBuilder {
    /// Builds the index of the library and checks it: first the systems and their children are
    /// indexed, book by book, with the keys of the bibliography; where that went without error,
    /// every block is checked, book by book, then the bibliography; where that went without error
    /// too, the operators of the symbols are added, book by book. The errors of the first stage
    /// that has any are returned; otherwise the index.
    pub fn build(&self) -> (r: Result<BuilderIndex, Vec<ParsingError>>)
        requires
            forall|i: int| 0 <= i < self.books@.len() ==> book_ready(#[trigger] self.books@[i]),
        ensures
            index_errors(*self).len() > 0 ==> (r matches Err(errors) && errors@ == index_errors(*self)),
            index_errors(*self).len() == 0 ==> exists|before: BuilderIndex, after: BuilderIndex, errors: Seq<ParsingError>|
                #![trigger indexed(*self, before), library_check(*self, before, after, errors)]
                indexed(*self, before) && library_check(*self, before, after, errors) && (if errors.len() > 0 {
                    r matches Err(found) && found@ == errors
                } else {
                    library_operators(*self, after, r)
                }),
    {
        let mut index = BuilderIndex::new();
        let mut errors: Vec<ParsingError> = Vec::new();
        proof {
            assert(index.systems.model() =~= Map::<Seq<char>, usize>::empty()) by {
                assert forall|k: Seq<char>| !index.systems.model().contains_key(k) by {
                    assert(!index.has_system(k));
                }
            }
            assert(index.bib_refs.model() =~= Map::<Seq<char>, BibliographyBuilderRef>::empty()) by {
                assert forall|k: Seq<char>| !index.bib_refs.model().contains_key(k) by {
                    assert(!index.has_bib_key(k));
                }
            }
            assert(index_matches(index, empty_model()));
            lemma_model_of_matching(index, empty_model());
        }
        let ghost start = index_model(index);
        let mut i: usize = 0;
        while i < self.books.len()
            invariant
                i <= self.books@.len(),
                index.wf(),
                start == empty_model(),
                index_matches(index, books_run(self.books@, start, i as nat).0),
                errors@ == books_run(self.books@, start, i as nat).1,
                index.bib_refs.model() == Map::<Seq<char>, BibliographyBuilderRef>::empty(),
                forall|s: Seq<char>, t: Seq<char>| #[trigger] index.first_proof(s, t) is None,
            decreases self.books@.len() - i,
        {
            proof {
                lemma_model_of_matching(index, books_run(self.books@, start, i as nat).0);
            }
            let ghost before = index;
            self.books[i].build_index(&mut index, &mut errors);
            proof {
                assert(errors@ =~= books_run(self.books@, start, (i + 1) as nat).1);
                assert forall|s: Seq<char>, t: Seq<char>| #[trigger] index.first_proof(s, t) is None by {
                    assert(index.first_proof(s, t) == before.first_proof(s, t));
                }
            }
            i = i + 1;
        }
        match &self.bibliography {
            Some(bib) => {
                let ghost before = index;
                let found = bib.build_index(&mut index);
                push_bib_errors(&found, &mut errors);
                proof {
                    assert forall|s: Seq<char>, t: Seq<char>| #[trigger] index.first_proof(s, t) is None by {
                        assert(index.first_proof(s, t) == before.first_proof(s, t));
                    }
                    assert forall|s: Seq<char>, c: Seq<char>| #[trigger] index.child(s, c) == before.child(s, c) by {}
                }
            },
            None => {
                assert(errors@ =~= errors@ + Seq::<ParsingError>::empty());
            },
        }
        assert(errors@ == index_errors(*self));
        if errors.len() > 0 {
            return Err(errors);
        }
        let ghost indexed_state = index;
        assert(indexed(*self, indexed_state));
        let ghost mut states: Seq<BuilderIndex> = seq![index];
        let ghost mut parts: Seq<Seq<ParsingError>> = seq![];
        let mut i: usize = 0;
        while i < self.books.len()
            invariant
                i <= self.books@.len(),
                index.wf(),
                forall|k: int| 0 <= k < self.books@.len() ==> book_ready(#[trigger] self.books@[k]),
                states.len() == i + 1,
                parts.len() == i,
                states[0] == indexed_state,
                states[i as int] == index,
                forall|k: int|
                    0 <= k < i ==> #[trigger] book_check(self.books@[k], k as usize, states[k], states[k + 1], parts[k]),
                errors@ == joined(parts),
            decreases self.books@.len() - i,
        {
            let ghost before_errors = errors@;
            self.books[i].verify_structure(i, &mut index, &mut errors);
            proof {
                let part = errors@.subrange(before_errors.len() as int, errors@.len() as int);
                let new_states = states.push(index);
                let new_parts = parts.push(part);
                assert(joined(new_parts) == joined(parts) + part) by {
                    assert(new_parts.drop_last() =~= parts);
                }
                assert(errors@ =~= before_errors + part);
                assert forall|k: int| 0 <= k < i + 1 implies #[trigger] book_check(
                    self.books@[k],
                    k as usize,
                    new_states[k],
                    new_states[k + 1],
                    new_parts[k],
                ) by {
                    if k < i {
                        assert(new_states[k] == states[k]);
                        assert(new_states[k + 1] == states[k + 1]);
                        assert(new_parts[k] == parts[k]);
                    }
                }
                states = new_states;
                parts = new_parts;
            }
            i = i + 1;
        }
        match &self.bibliography {
            Some(bib) => {
                let found = bib.verify_structure();
                push_bib_errors(&found, &mut errors);
            },
            None => {
                assert(errors@ =~= errors@ + Seq::<ParsingError>::empty());
            },
        }
        proof {
            assert(books_witness(self.books@, indexed_state, index, states, parts));
            assert(library_check(*self, indexed_state, index, errors@));
        }
        if errors.len() > 0 {
            return Err(errors);
        }
        let ghost checked = index;
        proof {
            assert(errors@ =~= Seq::<ParsingError>::empty());
            super::phases::law_clean_library_is_ready(*self, indexed_state, checked);
        }
        let ghost start = operators_of(index);
        let mut op_errors: Vec<ParsingError> = Vec::new();
        let mut i: usize = 0;
        while i < self.books.len()
            invariant
                i <= self.books@.len(),
                index.wf(),
                index.systems == checked.systems,
                index.children == checked.children,
                index.proofs == checked.proofs,
                index.bib_refs == checked.bib_refs,
                start == operators_of(checked),
                forall|b: int, c: int|
                    0 <= b < self.books@.len() && 0 <= c < self.books@[b].chapters@.len() ==> pages_operator_ready(
                        #[trigger] self.books@[b].chapters@[c].pages@,
                        checked,
                    ),
                forall|s: Seq<char>, d: ReadBuilder, t: Seq<TypeModel>| #[trigger] index.operator(s, d, t) == (
                books_operators_run(self.books@, start, i as nat).0)(s, d, t),
                op_errors@ == books_operators_run(self.books@, start, i as nat).1,
            decreases self.books@.len() - i,
        {
            proof {
                lemma_operators_of_extensional(index, books_operators_run(self.books@, start, i as nat).0);
                let chapters = self.books@[i as int].chapters@;
                assert forall|c: int| 0 <= c < chapters.len() implies pages_operator_ready(
                    #[trigger] chapters[c].pages@,
                    index,
                ) by {
                    let pages = chapters[c].pages@;
                    assert(pages_operator_ready(self.books@[i as int].chapters@[c].pages@, checked));
                    assert forall|p: int, k: int| 0 <= p < pages.len() && 0 <= k < pages[p].blocks@.len() implies operator_ready(
                        #[trigger] pages[p].blocks@[k],
                        index,
                    ) by {
                        assert(operator_ready(pages[p].blocks@[k], checked));
                    }
                }
            }
            self.books[i].build_operators(&mut index, &mut op_errors);
            proof {
                assert(op_errors@ =~= books_operators_run(self.books@, start, (i + 1) as nat).1);
            }
            i = i + 1;
        }
        proof {
            assert(library_operators(*self, checked, if op_errors.len() > 0 { Err(op_errors) } else { Ok(index) }));
        }
        if op_errors.len() > 0 {
            Err(op_errors)
        } else {
            Ok(index)
        }
    }
}

impl SymbolBuilder {
    /// How the symbol is read, with the types of its inputs, where it is read with an operator.
    pub fn read_signature(&self) -> (r: Option<ReadSignature<'_>>)
        requires
            self.entries.type_signatures@.len() > 0,
        ensures
            self.entries.reads@.len() == 0 ==> r is None,
            self.entries.reads@.len() > 0 ==> (r matches Some(sig) && sig.read == self.entries.reads@[0]
                && signature_inputs(sig) == inputs_model(type_model(self.entries.type_signatures@[0]))),
    {
        if self.entries.reads.len() == 0 {
            None
        } else {
            let inputs = self.entries.type_signatures[0].inputs();
            Some(ReadSignature { read: self.entries.reads[0], inputs })
        }
    }
}

/// The types of a list of variables, in order.
pub open spec fn variable_types(vars: Seq<VariableBuilder>) -> Seq<TypeModel> {
    vars.map_values(|v: VariableBuilder| type_model(v.type_signature))
}

impl DefinitionBuilder {
    /// How the definition is read, with the types of its inputs, where it is read with an
    /// operator.
    pub fn read_signature(&self) -> (r: Option<ReadSignature<'_>>)
        requires
            self.entries.inputs@.len() > 0,
        ensures
            self.entries.reads@.len() == 0 ==> r is None,
            self.entries.reads@.len() > 0 ==> (r matches Some(sig) && sig.read == self.entries.reads@[0]
                && signature_inputs(sig) == variable_types(self.entries.inputs@[0]@)),
    {
        if self.entries.reads.len() == 0 {
            None
        } else {
            let vars = &self.entries.inputs[0];
            let mut inputs: Vec<&TypeSignatureBuilder> = Vec::new();
            let mut i: usize = 0;
            while i < vars.len()
                invariant
                    i <= vars@.len(),
                    inputs@.map_values(|t: &TypeSignatureBuilder| type_model(*t)) == variable_types(vars@.take(i as int)),
                decreases vars@.len() - i,
            {
                inputs.push(&vars[i].type_signature);
                proof {
                    assert(variable_types(vars@.take(i + 1)) =~= variable_types(vars@.take(i as int)).push(
                        type_model(vars@[i as int].type_signature),
                    ));
                    assert(inputs@.map_values(|t: &TypeSignatureBuilder| type_model(*t)) =~= variable_types(
                        vars@.take(i + 1),
                    ));
                }
                i = i + 1;
            }
            assert(vars@.take(i as int) =~= vars@);
            Some(ReadSignature { read: self.entries.reads[0], inputs })
        }
    }

    /// The type of the definition, given that of its expansion: a function from the types of its
    /// inputs, in order, to that of the expansion.
    pub fn type_signature(&self, expanded: &TypeSignatureBuilder) -> (r: TypeSignatureBuilder)
        requires
            self.entries.inputs@.len() > 0,
        ensures
            type_model(r) == extended_model(type_model(*expanded), variable_types(self.entries.inputs@[0]@)),
    {
        let vars = &self.entries.inputs[0];
        let mut inputs: Vec<TypeSignatureBuilder> = Vec::new();
        let mut i: usize = 0;
        while i < vars.len()
            invariant
                i <= vars@.len(),
                inputs@.map_values(|t: TypeSignatureBuilder| type_model(t)) == variable_types(vars@.take(i as int)),
            decreases vars@.len() - i,
        {
            inputs.push(vars[i].type_signature.duplicate());
            proof {
                assert(variable_types(vars@.take(i + 1)) =~= variable_types(vars@.take(i as int)).push(
                    type_model(vars@[i as int].type_signature),
                ));
                assert(inputs@.map_values(|t: TypeSignatureBuilder| type_model(t)) =~= variable_types(vars@.take(i + 1)));
            }
            i = i + 1;
        }
        assert(vars@.take(i as int) =~= vars@);
        expanded.duplicate().extend(inputs)
    }

    /// Adds the operator of the definition to its system, once the type of its expansion is
    /// known; nothing where the definition is read with no operator.
    pub fn build_operator(&self, expanded: &TypeSignatureBuilder, index: &mut BuilderIndex) -> (r: Option<ParsingError>)
        requires
            old(index).wf(),
            old(index).has_system(self.system_id@),
            self.entries.inputs@.len() > 0,
        ensures
            final(index).wf(),
            ({
                let readable = ReadableBuilder::Definition(DefinitionBuilderRef(self.location.serial));
                let ty = extended_model(type_model(*expanded), variable_types(self.entries.inputs@[0]@));
                operator_step(self.system_id@, self.entries.reads@, readable, ty, *old(index), *final(index), r)
            }),
            final(index).systems == old(index).systems,
            final(index).children == old(index).children,
            final(index).proofs == old(index).proofs,
            final(index).bib_refs == old(index).bib_refs,
    {
        if self.entries.reads.len() == 0 {
            return None;
        }
        let ty = self.type_signature(expanded);
        proof {
            lemma_extended_inputs(type_model(*expanded), variable_types(self.entries.inputs@[0]@));
        }
        let readable = ReadableBuilder::Definition(DefinitionBuilderRef(self.location.serial));
        match index.add_operator(self.system_id.as_str(), self.entries.reads[0], readable, ty) {
            Ok(()) => None,
            Err(old_readable) => Some(ParsingError::ReadableError(readable, ReadableParsingError::IdAlreadyTaken(old_readable))),
        }
    }
}

/// The inputs of a function type made from inputs and a type are those inputs, then the inputs
/// of the type.
pub proof fn lemma_extended_inputs(base: TypeModel, inputs: Seq<TypeModel>)
    ensures
        inputs_model(extended_model(base, inputs)) == inputs + inputs_model(base),
    decreases inputs.len(),
{
    if inputs.len() > 0 {
        lemma_extended_inputs(base, inputs.drop_first());
        assert(inputs =~= seq![inputs[0]] + inputs.drop_first());
    } else {
        assert(inputs + inputs_model(base) =~= inputs_model(base));
    }
}

/// What adding the operator of a symbol or definition does: where it is read with an operator,
/// the operator is added to its system with the symbol's or definition's type, unless the system
/// reads the same way with inputs of the same types already, which is an error that names what
/// that reads as; otherwise nothing changes.
pub open spec fn operator_step(
    system_id: Seq<char>,
    reads: Seq<ReadBuilder>,
    readable: ReadableBuilder,
    ty: TypeModel,
    before: BuilderIndex,
    after: BuilderIndex,
    r: Option<ParsingError>,
) -> bool {
    if reads.len() == 0 {
        &&& r is None
        &&& after.operators == before.operators
    } else {
        let read = reads[0];
        let inputs = inputs_model(ty);
        &&& r == match before.operator(system_id, read, inputs) {
            Some(found) => Some(ParsingError::ReadableError(readable, ReadableParsingError::IdAlreadyTaken(found.0))),
            None => None,
        }
        &&& forall|s: Seq<char>, d: ReadBuilder, i: Seq<TypeModel>| #[trigger] after.operator(s, d, i) == (if s
            == system_id && d == read && i == inputs && r is None {
            Some((readable, ty))
        } else {
            before.operator(s, d, i)
        })
    }
}

/// Whether a block's operator can be added: a symbol has its type, and its system exists.
pub open spec fn operator_ready(block: BlockBuilder, index: BuilderIndex) -> bool {
    match block {
        BlockBuilder::Symbol(b) => b.entries.type_signatures@.len() > 0 && index.has_system(b.system_id@),
        _ => true,
    }
}

impl BlockBuilder {
    /// Adds the operator of a symbol block to its system, where the symbol is read with one; a
    /// definition adds its operator once the type of its expansion is known
    /// (`DefinitionBuilder::build_operator`); other blocks change nothing.
    pub fn build_operators(&self, index: &mut BuilderIndex) -> (r: Option<ParsingError>)
        requires
            old(index).wf(),
            operator_ready(*self, *old(index)),
        ensures
            final(index).wf(),
            match *self {
                BlockBuilder::Symbol(b) => operator_step(
                    b.system_id@,
                    b.entries.reads@,
                    ReadableBuilder::Symbol(SymbolBuilderRef(b.location.serial)),
                    type_model(b.entries.type_signatures@[0]),
                    *old(index),
                    *final(index),
                    r,
                ),
                _ => r is None && *final(index) == *old(index),
            },
            final(index).systems == old(index).systems,
            final(index).children == old(index).children,
            final(index).proofs == old(index).proofs,
            final(index).bib_refs == old(index).bib_refs,
    {
        match self {
            BlockBuilder::Symbol(b) => {
                if b.entries.reads.len() == 0 {
                    return None;
                }
                let readable = ReadableBuilder::Symbol(SymbolBuilderRef(b.location.serial));
                let ty = b.entries.type_signatures[0].duplicate();
                match index.add_operator(b.system_id.as_str(), b.entries.reads[0], readable, ty) {
                    Ok(()) => None,
                    Err(old_readable) => Some(
                        ParsingError::ReadableError(readable, ReadableParsingError::IdAlreadyTaken(old_readable)),
                    ),
                }
            },
            _ => None,
        }
    }
}

/// The operators of an index, as a function from a system, a reading and input types to what is
/// read so.
pub open spec fn operators_of(index: BuilderIndex) -> spec_fn(Seq<char>, ReadBuilder, Seq<TypeModel>) -> Option<
    (ReadableBuilder, TypeModel),
> {
    |s: Seq<char>, d: ReadBuilder, i: Seq<TypeModel>| index.operator(s, d, i)
}

/// Adding the operator of one block: a symbol read with an operator adds it unless its reading
/// is taken; gives the new operators and the error, if any.
pub open spec fn operators_step(
    block: BlockBuilder,
    ops: spec_fn(Seq<char>, ReadBuilder, Seq<TypeModel>) -> Option<(ReadableBuilder, TypeModel)>,
) -> (spec_fn(Seq<char>, ReadBuilder, Seq<TypeModel>) -> Option<(ReadableBuilder, TypeModel)>, Seq<ParsingError>) {
    match block {
        BlockBuilder::Symbol(b) => if b.entries.reads@.len() == 0 {
            (ops, seq![])
        } else {
            let read = b.entries.reads@[0];
            let ty = type_model(b.entries.type_signatures@[0]);
            let inputs = inputs_model(ty);
            let readable = ReadableBuilder::Symbol(SymbolBuilderRef(b.location.serial));
            match ops(b.system_id@, read, inputs) {
                Some(found) => (ops, seq![ParsingError::ReadableError(readable, ReadableParsingError::IdAlreadyTaken(found.0))]),
                None => (
                    |s: Seq<char>, d: ReadBuilder, i: Seq<TypeModel>|
                        if s == b.system_id@ && d == read && i == inputs {
                            Some((readable, ty))
                        } else {
                            ops(s, d, i)
                        },
                    seq![],
                ),
            }
        },
        _ => (ops, seq![]),
    }
}

/// Adding the operators of the first `n` blocks of a list, in order.
pub open spec fn operators_run(
    blocks: Seq<BlockBuilder>,
    ops: spec_fn(Seq<char>, ReadBuilder, Seq<TypeModel>) -> Option<(ReadableBuilder, TypeModel)>,
    n: nat,
) -> (spec_fn(Seq<char>, ReadBuilder, Seq<TypeModel>) -> Option<(ReadableBuilder, TypeModel)>, Seq<ParsingError>)
    decreases n,
{
    if n == 0 || n > blocks.len() {
        (ops, seq![])
    } else {
        let before = operators_run(blocks, ops, (n - 1) as nat);
        let step = operators_step(blocks[n - 1], before.0);
        (step.0, before.1 + step.1)
    }
}

impl PageBuilder {
    /// Adds the operators of the symbols of the page, in order, appending the errors.
    pub fn build_operators(&self, index: &mut BuilderIndex, errors: &mut Vec<ParsingError>)
        requires
            old(index).wf(),
            forall|i: int| 0 <= i < self.blocks@.len() ==> operator_ready(#[trigger] self.blocks@[i], *old(index)),
        ensures
            final(index).wf(),
            forall|s: Seq<char>, d: ReadBuilder, i: Seq<TypeModel>| #[trigger] final(index).operator(s, d, i) == (
            operators_run(self.blocks@, operators_of(*old(index)), self.blocks@.len()).0)(s, d, i),
            final(errors)@ == old(errors)@ + operators_run(self.blocks@, operators_of(*old(index)), self.blocks@.len()).1,
            final(index).systems == old(index).systems,
            final(index).children == old(index).children,
            final(index).proofs == old(index).proofs,
            final(index).bib_refs == old(index).bib_refs,
    {
        let ghost start = operators_of(*index);
        let ghost start_errors = errors@;
        let mut i: usize = 0;
        while i < self.blocks.len()
            invariant
                i <= self.blocks@.len(),
                index.wf(),
                index.systems == old(index).systems,
                index.children == old(index).children,
                index.proofs == old(index).proofs,
                index.bib_refs == old(index).bib_refs,
                forall|k: int| 0 <= k < self.blocks@.len() ==> operator_ready(#[trigger] self.blocks@[k], *old(index)),
                forall|s: Seq<char>, d: ReadBuilder, t: Seq<TypeModel>| #[trigger] index.operator(s, d, t) == (
                operators_run(self.blocks@, start, i as nat).0)(s, d, t),
                errors@ == start_errors + operators_run(self.blocks@, start, i as nat).1,
            decreases self.blocks@.len() - i,
        {
            let ghost before = *index;
            let ghost ops = operators_run(self.blocks@, start, i as nat).0;
            proof {
                assert(operator_ready(self.blocks@[i as int], *old(index)));
                if self.blocks@[i as int] is Symbol {
                    assert(index.has_system(self.blocks@[i as int]->Symbol_0.system_id@));
                }
            }
            let found = self.blocks[i].build_operators(index);
            match found {
                Some(e) => errors.push(e),
                None => {},
            }
            proof {
                let step = operators_step(self.blocks@[i as int], ops);
                assert forall|s: Seq<char>, d: ReadBuilder, t: Seq<TypeModel>| #[trigger] index.operator(s, d, t) == (
                step.0)(s, d, t) by {
                    assert(before.operator(s, d, t) == ops(s, d, t));
                    match self.blocks@[i as int] {
                        BlockBuilder::Symbol(b) => {
                            if b.entries.reads@.len() > 0 {
                                let ty = type_model(b.entries.type_signatures@[0]);
                                assert(before.operator(b.system_id@, b.entries.reads@[0], inputs_model(ty)) == ops(
                                    b.system_id@,
                                    b.entries.reads@[0],
                                    inputs_model(ty),
                                ));
                            }
                        },
                        _ => {},
                    }
                }
                match self.blocks@[i as int] {
                    BlockBuilder::Symbol(b) => {
                        if b.entries.reads@.len() > 0 {
                            let ty = type_model(b.entries.type_signatures@[0]);
                            assert(before.operator(b.system_id@, b.entries.reads@[0], inputs_model(ty)) == ops(
                                b.system_id@,
                                b.entries.reads@[0],
                                inputs_model(ty),
                            ));
                        }
                    },
                    _ => {},
                }
                assert(errors@ =~= start_errors + operators_run(self.blocks@, start, (i + 1) as nat).1);
            }
            i = i + 1;
        }
    }
}

/// Adding the operators of the first `n` pages of a list, page by page.
pub open spec fn pages_operators_run(
    pages: Seq<PageBuilder>,
    ops: spec_fn(Seq<char>, ReadBuilder, Seq<TypeModel>) -> Option<(ReadableBuilder, TypeModel)>,
    n: nat,
) -> (spec_fn(Seq<char>, ReadBuilder, Seq<TypeModel>) -> Option<(ReadableBuilder, TypeModel)>, Seq<ParsingError>)
    decreases n,
{
    if n == 0 || n > pages.len() {
        (ops, seq![])
    } else {
        let before = pages_operators_run(pages, ops, (n - 1) as nat);
        let blocks = pages[n - 1].blocks@;
        let page = operators_run(blocks, before.0, blocks.len());
        (page.0, before.1 + page.1)
    }
}

/// Adding the operators of the first `n` chapters of a list, chapter by chapter.
pub open spec fn chapters_operators_run(
    chapters: Seq<ChapterBuilder>,
    ops: spec_fn(Seq<char>, ReadBuilder, Seq<TypeModel>) -> Option<(ReadableBuilder, TypeModel)>,
    n: nat,
) -> (spec_fn(Seq<char>, ReadBuilder, Seq<TypeModel>) -> Option<(ReadableBuilder, TypeModel)>, Seq<ParsingError>)
    decreases n,
{
    if n == 0 || n > chapters.len() {
        (ops, seq![])
    } else {
        let before = chapters_operators_run(chapters, ops, (n - 1) as nat);
        let pages = chapters[n - 1].pages@;
        let chapter = pages_operators_run(pages, before.0, pages.len());
        (chapter.0, before.1 + chapter.1)
    }
}

/// Adding the operators of the first `n` books of a list, book by book.
pub open spec fn books_operators_run(
    books: Seq<BookBuilder>,
    ops: spec_fn(Seq<char>, ReadBuilder, Seq<TypeModel>) -> Option<(ReadableBuilder, TypeModel)>,
    n: nat,
) -> (spec_fn(Seq<char>, ReadBuilder, Seq<TypeModel>) -> Option<(ReadableBuilder, TypeModel)>, Seq<ParsingError>)
    decreases n,
{
    if n == 0 || n > books.len() {
        (ops, seq![])
    } else {
        let before = books_operators_run(books, ops, (n - 1) as nat);
        let chapters = books[n - 1].chapters@;
        let book = chapters_operators_run(chapters, before.0, chapters.len());
        (book.0, before.1 + book.1)
    }
}

/// What adding the operators of the symbols of a library to the index `after` gives: their
/// errors, where there are any; otherwise `after` with the operators added.
pub open spec fn library_operators(
    manifest: ManifestBuilder,
    after: BuilderIndex,
    r: Result<BuilderIndex, Vec<ParsingError>>,
) -> bool {
    let ops = books_operators_run(manifest.books@, operators_of(after), manifest.books@.len());
    if ops.1.len() > 0 {
        r matches Err(found) && found@ == ops.1
    } else {
        r matches Ok(index) && index.wf() && index.systems == after.systems && index.children == after.children
            && index.proofs == after.proofs && index.bib_refs == after.bib_refs && forall|
            s: Seq<char>,
            d: ReadBuilder,
            t: Seq<TypeModel>,
        | #[trigger] index.operator(s, d, t) == (ops.0)(s, d, t)
    }
}

/// Whether the operators of every block of every page can be added.
pub open spec fn pages_operator_ready(pages: Seq<PageBuilder>, index: BuilderIndex) -> bool {
    forall|p: int, i: int|
        0 <= p < pages.len() && 0 <= i < pages[p].blocks@.len() ==> operator_ready(#[trigger] pages[p].blocks@[i], index)
}

proof fn lemma_operators_of_extensional(
    index: BuilderIndex,
    ops: spec_fn(Seq<char>, ReadBuilder, Seq<TypeModel>) -> Option<(ReadableBuilder, TypeModel)>,
)
    requires
        forall|s: Seq<char>, d: ReadBuilder, t: Seq<TypeModel>| #[trigger] index.operator(s, d, t) == ops(s, d, t),
    ensures
        operators_of(index) == ops,
{
    assert(operators_of(index) =~= ops);
}

impl ChapterBuilder {
    /// Adds the operators of the symbols of the chapter, page by page, appending the errors.
    pub fn build_operators(&self, index: &mut BuilderIndex, errors: &mut Vec<ParsingError>)
        requires
            old(index).wf(),
            pages_operator_ready(self.pages@, *old(index)),
        ensures
            final(index).wf(),
            forall|s: Seq<char>, d: ReadBuilder, i: Seq<TypeModel>| #[trigger] final(index).operator(s, d, i) == (
            pages_operators_run(self.pages@, operators_of(*old(index)), self.pages@.len()).0)(s, d, i),
            final(errors)@ == old(errors)@ + pages_operators_run(
                self.pages@,
                operators_of(*old(index)),
                self.pages@.len(),
            ).1,
            final(index).systems == old(index).systems,
            final(index).children == old(index).children,
            final(index).proofs == old(index).proofs,
            final(index).bib_refs == old(index).bib_refs,
    {
        let ghost start = operators_of(*index);
        let ghost start_errors = errors@;
        let mut i: usize = 0;
        while i < self.pages.len()
            invariant
                i <= self.pages@.len(),
                index.wf(),
                index.systems == old(index).systems,
                index.children == old(index).children,
                index.proofs == old(index).proofs,
                index.bib_refs == old(index).bib_refs,
                pages_operator_ready(self.pages@, *old(index)),
                forall|s: Seq<char>, d: ReadBuilder, t: Seq<TypeModel>| #[trigger] index.operator(s, d, t) == (
                pages_operators_run(self.pages@, start, i as nat).0)(s, d, t),
                errors@ == start_errors + pages_operators_run(self.pages@, start, i as nat).1,
            decreases self.pages@.len() - i,
        {
            proof {
                lemma_operators_of_extensional(*index, pages_operators_run(self.pages@, start, i as nat).0);
                assert forall|k: int| 0 <= k < self.pages@[i as int].blocks@.len() implies operator_ready(
                    #[trigger] self.pages@[i as int].blocks@[k],
                    *index,
                ) by {
                    assert(operator_ready(self.pages@[i as int].blocks@[k], *old(index)));
                }
            }
            self.pages[i].build_operators(index, errors);
            proof {
                assert(errors@ =~= start_errors + pages_operators_run(self.pages@, start, (i + 1) as nat).1);
            }
            i = i + 1;
        }
    }
}

impl BookBuilder {
    /// Adds the operators of the symbols of the book, chapter by chapter, appending the errors.
    pub fn build_operators(&self, index: &mut BuilderIndex, errors: &mut Vec<ParsingError>)
        requires
            old(index).wf(),
            forall|c: int| 0 <= c < self.chapters@.len() ==> pages_operator_ready(#[trigger] self.chapters@[c].pages@, *old(index)),
        ensures
            final(index).wf(),
            forall|s: Seq<char>, d: ReadBuilder, i: Seq<TypeModel>| #[trigger] final(index).operator(s, d, i) == (
            chapters_operators_run(self.chapters@, operators_of(*old(index)), self.chapters@.len()).0)(s, d, i),
            final(errors)@ == old(errors)@ + chapters_operators_run(
                self.chapters@,
                operators_of(*old(index)),
                self.chapters@.len(),
            ).1,
            final(index).systems == old(index).systems,
            final(index).children == old(index).children,
            final(index).proofs == old(index).proofs,
            final(index).bib_refs == old(index).bib_refs,
    {
        let ghost start = operators_of(*index);
        let ghost start_errors = errors@;
        let mut i: usize = 0;
        while i < self.chapters.len()
            invariant
                i <= self.chapters@.len(),
                index.wf(),
                index.systems == old(index).systems,
                index.children == old(index).children,
                index.proofs == old(index).proofs,
                index.bib_refs == old(index).bib_refs,
                forall|c: int| 0 <= c < self.chapters@.len() ==> pages_operator_ready(#[trigger] self.chapters@[c].pages@, *old(index)),
                forall|s: Seq<char>, d: ReadBuilder, t: Seq<TypeModel>| #[trigger] index.operator(s, d, t) == (
                chapters_operators_run(self.chapters@, start, i as nat).0)(s, d, t),
                errors@ == start_errors + chapters_operators_run(self.chapters@, start, i as nat).1,
            decreases self.chapters@.len() - i,
        {
            proof {
                lemma_operators_of_extensional(*index, chapters_operators_run(self.chapters@, start, i as nat).0);
                let pages = self.chapters@[i as int].pages@;
                assert(pages_operator_ready(pages, *old(index)));
                assert forall|p: int, k: int| 0 <= p < pages.len() && 0 <= k < pages[p].blocks@.len() implies operator_ready(
                    #[trigger] pages[p].blocks@[k],
                    *index,
                ) by {
                    assert(operator_ready(pages[p].blocks@[k], *old(index)));
                }
            }
            self.chapters[i].build_operators(index, errors);
            proof {
                assert(errors@ =~= start_errors + chapters_operators_run(self.chapters@, start, (i + 1) as nat).1);
            }
            i = i + 1;
        }
    }
}

/// The text of a decimal digit.
pub open spec fn digit_text(d: nat) -> Seq<char> {
    if d == 0 {
        "0"@
    } else if d == 1 {
        "1"@
    } else if d == 2 {
        "2"@
    } else if d == 3 {
        "3"@
    } else if d == 4 {
        "4"@
    } else if d == 5 {
        "5"@
    } else if d == 6 {
        "6"@
    } else if d == 7 {
        "7"@
    } else if d == 8 {
        "8"@
    } else {
        "9"@
    }
}

/// A number written in decimal.
pub open spec fn decimal(n: nat) -> Seq<char>
    decreases n,
{
    if n < 10 {
        digit_text(n)
    } else {
        decimal(n / 10) + digit_text(n % 10)
    }
}

fn push_digit(out: &mut String, d: usize)
    requires
        d < 10,
    ensures
        final(out)@ == old(out)@ + digit_text(d as nat),
{
    if d == 0 {
        out.append("0");
    } else if d == 1 {
        out.append("1");
    } else if d == 2 {
        out.append("2");
    } else if d == 3 {
        out.append("3");
    } else if d == 4 {
        out.append("4");
    } else if d == 5 {
        out.append("5");
    } else if d == 6 {
        out.append("6");
    } else if d == 7 {
        out.append("7");
    } else if d == 8 {
        out.append("8");
    } else {
        out.append("9");
    }
}

/// Appends a number written in decimal.
fn push_decimal(out: &mut String, n: usize)
    ensures
        final(out)@ == old(out)@ + decimal(n as nat),
    decreases n,
{
    if n >= 10 {
        push_decimal(out, n / 10);
    }
    push_digit(out, n % 10);
    proof {
        if n >= 10 {
            assert(decimal(n as nat) == decimal((n / 10) as nat) + digit_text((n % 10) as nat));
        }
    }
}

/// The address of a book.
pub open spec fn book_href(book: Seq<char>) -> Seq<char> {
    "/"@ + book
}

/// The address of a chapter of a book.
pub open spec fn chapter_href(book: Seq<char>, chapter: Seq<char>) -> Seq<char> {
    "/"@ + book + "/"@ + chapter
}

/// The address of a page of a chapter of a book.
pub open spec fn page_href(book: Seq<char>, chapter: Seq<char>, page: Seq<char>) -> Seq<char> {
    "/"@ + book + "/"@ + chapter + "/"@ + page
}

/// The address of a system block on a page: the page's, with the id of the system as anchor.
pub open spec fn system_href(book: Seq<char>, chapter: Seq<char>, page: Seq<char>, id: Seq<char>) -> Seq<char> {
    page_href(book, chapter, page) + "#"@ + id
}

/// The address of a block that is a child of a system: the page's, with the ids of the system
/// and of the block as anchor.
pub open spec fn child_href(
    book: Seq<char>,
    chapter: Seq<char>,
    page: Seq<char>,
    system: Seq<char>,
    id: Seq<char>,
) -> Seq<char> {
    page_href(book, chapter, page) + "#"@ + system + "_"@ + id
}

/// The id of the step of a proof of a theorem that comes after `k` other steps.
pub open spec fn step_id(system: Seq<char>, theorem: Seq<char>, k: nat) -> Seq<char> {
    system + "_"@ + theorem + "_proof_"@ + decimal(k)
}

fn make_page_href(book: &str, chapter: &str, page: &str) -> (r: String)
    ensures
        r@ == page_href(book@, chapter@, page@),
{
    let mut out = String::new();
    out.append("/");
    out.append(book);
    out.append("/");
    out.append(chapter);
    out.append("/");
    out.append(page);
    out
}

fn make_child_href(book: &str, chapter: &str, page: &str, system: &str, id: &str) -> (r: String)
    ensures
        r@ == child_href(book@, chapter@, page@, system@, id@),
{
    let mut out = make_page_href(book, chapter, page);
    out.append("#");
    out.append(system);
    out.append("_");
    out.append(id);
    out
}

impl SystemBuilder {
    /// Sets the address of the block, on a page of a chapter of a book.
    pub fn set_href(&mut self, book_id: &str, chapter_id: &str, page_id: &str)
        ensures
            final(self).href@ == system_href(book_id@, chapter_id@, page_id@, old(self).id@),
            *final(self) == (SystemBuilder { href: final(self).href, ..*old(self) }),
    {
        let mut href = make_page_href(book_id, chapter_id, page_id);
        href.append("#");
        href.append(self.id.as_str());
        self.href = href;
    }
}

impl SymbolBuilder {
    /// Sets the address of the block, on a page of a chapter of a book.
    pub fn set_href(&mut self, book_id: &str, chapter_id: &str, page_id: &str)
        ensures
            final(self).href@ == child_href(book_id@, chapter_id@, page_id@, old(self).system_id@, old(self).id@),
            *final(self) == (SymbolBuilder { href: final(self).href, ..*old(self) }),
    {
        self.href = make_child_href(book_id, chapter_id, page_id, self.system_id.as_str(), self.id.as_str());
    }
}

impl DefinitionBuilder {
    /// Sets the address of the block, on a page of a chapter of a book.
    pub fn set_href(&mut self, book_id: &str, chapter_id: &str, page_id: &str)
        ensures
            final(self).href@ == child_href(book_id@, chapter_id@, page_id@, old(self).system_id@, old(self).id@),
            *final(self) == (DefinitionBuilder { href: final(self).href, ..*old(self) }),
    {
        self.href = make_child_href(book_id, chapter_id, page_id, self.system_id.as_str(), self.id.as_str());
    }
}

impl AxiomBuilder {
    /// Sets the address of the block, on a page of a chapter of a book.
    pub fn set_href(&mut self, book_id: &str, chapter_id: &str, page_id: &str)
        ensures
            final(self).href@ == child_href(book_id@, chapter_id@, page_id@, old(self).system_id@, old(self).id@),
            *final(self) == (AxiomBuilder { href: final(self).href, ..*old(self) }),
    {
        self.href = make_child_href(book_id, chapter_id, page_id, self.system_id.as_str(), self.id.as_str());
    }
}

impl TheoremBuilder {
    /// Sets the address of the block, on a page of a chapter of a book.
    pub fn set_href(&mut self, book_id: &str, chapter_id: &str, page_id: &str)
        ensures
            final(self).href@ == child_href(book_id@, chapter_id@, page_id@, old(self).system_id@, old(self).id@),
            *final(self) == (TheoremBuilder { href: final(self).href, ..*old(self) }),
    {
        self.href = make_child_href(book_id, chapter_id, page_id, self.system_id.as_str(), self.id.as_str());
    }
}

/// Whether a step has the number, id and address of the step of a proof of a theorem that comes
/// after `k` other steps, on a page, and is otherwise unchanged.
pub open spec fn step_href_set(
    new: ProofBuilderStep,
    old: ProofBuilderStep,
    page: Seq<char>,
    system: Seq<char>,
    theorem: Seq<char>,
    k: nat,
) -> bool {
    &&& new == (ProofBuilderStep { tag: (k + 1) as usize, id: new.id, href: new.href, ..old })
    &&& new.id@ == step_id(system, theorem, k)
    &&& new.href@ == page + "#"@ + new.id@
}

impl ProofBuilderStep {
    /// Sets the number, id and address of the step that comes after `tag` other steps of a
    /// proof of a theorem, on a page of a chapter of a book.
    pub fn set_href(
        &mut self,
        book_id: &str,
        chapter_id: &str,
        page_id: &str,
        system_id: &str,
        theorem_id: &str,
        tag: usize,
    )
        requires
            tag < usize::MAX,
        ensures
            step_href_set(*final(self), *old(self), page_href(book_id@, chapter_id@, page_id@), system_id@, theorem_id@, tag as nat),
    {
        self.tag = tag + 1;
        let mut id = String::new();
        id.append(system_id);
        id.append("_");
        id.append(theorem_id);
        id.append("_proof_");
        push_decimal(&mut id, tag);
        let mut href = make_page_href(book_id, chapter_id, page_id);
        href.append("#");
        href.append(id.as_str());
        self.id = id;
        self.href = href;
    }
}

/// The number of steps among the first `n` elements of a proof.
pub open spec fn steps_before(elements: Seq<ProofBuilderElement>, n: nat) -> nat
    decreases n,
{
    if n == 0 || n > elements.len() {
        0
    } else {
        steps_before(elements, (n - 1) as nat) + if elements[n - 1] is Step {
            1nat
        } else {
            0nat
        }
    }
}

/// Whether an element of a proof has the address it gets after `k` steps, and is otherwise
/// unchanged.
pub open spec fn element_href_set(
    new: ProofBuilderElement,
    old: ProofBuilderElement,
    page: Seq<char>,
    system: Seq<char>,
    theorem: Seq<char>,
    k: nat,
) -> bool {
    match (old, new) {
        (ProofBuilderElement::Text(o), ProofBuilderElement::Text(n)) => n == o,
        (ProofBuilderElement::Step(o), ProofBuilderElement::Step(n)) => step_href_set(n, o, page, system, theorem, k),
        _ => false,
    }
}

impl ProofBuilderElement {
    /// Sets the address of a step, which comes after `*step_counter` other steps, and counts it.
    pub fn set_href(
        &mut self,
        book_id: &str,
        chapter_id: &str,
        page_id: &str,
        system_id: &str,
        theorem_id: &str,
        step_counter: &mut usize,
    )
        requires
            *old(step_counter) < usize::MAX,
        ensures
            element_href_set(
                *final(self),
                *old(self),
                page_href(book_id@, chapter_id@, page_id@),
                system_id@,
                theorem_id@,
                *old(step_counter) as nat,
            ),
            *final(step_counter) == *old(step_counter) + if *old(self) is Step {
                1int
            } else {
                0int
            },
    {
        match self {
            ProofBuilderElement::Text(_) => {},
            ProofBuilderElement::Step(step) => {
                let current = *step_counter;
                *step_counter = current + 1;
                step.set_href(book_id, chapter_id, page_id, system_id, theorem_id, current);
            },
        }
    }
}

/// Whether a proof has the addresses of its steps set, on a page, and is otherwise unchanged.
pub open spec fn proof_href_set(new: ProofBuilder, old: ProofBuilder, page: Seq<char>) -> bool {
    &&& new.system_id == old.system_id
    &&& new.theorem_id == old.theorem_id
    &&& new.serial == old.serial
    &&& new.elements@.len() == old.elements@.len()
    &&& forall|i: int|
        0 <= i < old.elements@.len() ==> #[trigger] element_href_set(
            new.elements@[i],
            old.elements@[i],
            page,
            old.system_id@,
            old.theorem_id@,
            steps_before(old.elements@, i as nat),
        )
}

proof fn lemma_steps_before_bound(elements: Seq<ProofBuilderElement>, n: nat)
    requires
        n <= elements.len(),
    ensures
        steps_before(elements, n) <= n,
    decreases n,
{
    if n > 0 {
        lemma_steps_before_bound(elements, (n - 1) as nat);
    }
}

impl ProofBuilder {
    /// Sets the numbers, ids and addresses of the steps of the proof, in order, on a page of a
    /// chapter of a book.
    pub fn set_href(&mut self, book_id: &str, chapter_id: &str, page_id: &str)
        requires
            old(self).elements@.len() < usize::MAX,
        ensures
            proof_href_set(*final(self), *old(self), page_href(book_id@, chapter_id@, page_id@)),
    {
        let system_id = self.system_id.clone();
        let theorem_id = self.theorem_id.clone();
        let ghost original = self.elements@;
        let mut counter: usize = 0;
        let mut i: usize = 0;
        while i < self.elements.len()
            invariant
                i <= self.elements@.len(),
                self.elements@.len() == original.len(),
                original.len() < usize::MAX,
                original == old(self).elements@,
                self.system_id == old(self).system_id,
                self.theorem_id == old(self).theorem_id,
                self.serial == old(self).serial,
                system_id@ == old(self).system_id@,
                theorem_id@ == old(self).theorem_id@,
                counter == steps_before(original, i as nat),
                forall|k: int| i <= k < original.len() ==> self.elements@[k] == original[k],
                forall|k: int|
                    0 <= k < i ==> #[trigger] element_href_set(
                        self.elements@[k],
                        original[k],
                        page_href(book_id@, chapter_id@, page_id@),
                        old(self).system_id@,
                        old(self).theorem_id@,
                        steps_before(original, k as nat),
                    ),
            decreases original.len() - i,
        {
            proof {
                lemma_steps_before_bound(original, i as nat);
            }
            let mut element = self.elements.remove(i);
            element.set_href(book_id, chapter_id, page_id, system_id.as_str(), theorem_id.as_str(), &mut counter);
            self.elements.insert(i, element);
            i = i + 1;
        }
    }
}

/// Whether a block has its address set, on a page, and is otherwise unchanged.
pub open spec fn block_href_set(
    new: BlockBuilder,
    old: BlockBuilder,
    book: Seq<char>,
    chapter: Seq<char>,
    page: Seq<char>,
) -> bool {
    match (old, new) {
        (BlockBuilder::System(o), BlockBuilder::System(n)) => n == (SystemBuilder { href: n.href, ..o })
            && n.href@ == system_href(book, chapter, page, o.id@),
        (BlockBuilder::Symbol(o), BlockBuilder::Symbol(n)) => n == (SymbolBuilder { href: n.href, ..o })
            && n.href@ == child_href(book, chapter, page, o.system_id@, o.id@),
        (BlockBuilder::Definition(o), BlockBuilder::Definition(n)) => n == (DefinitionBuilder { href: n.href, ..o })
            && n.href@ == child_href(book, chapter, page, o.system_id@, o.id@),
        (BlockBuilder::Axiom(o), BlockBuilder::Axiom(n)) => n == (AxiomBuilder { href: n.href, ..o })
            && n.href@ == child_href(book, chapter, page, o.system_id@, o.id@),
        (BlockBuilder::Theorem(o), BlockBuilder::Theorem(n)) => n == (TheoremBuilder { href: n.href, ..o })
            && n.href@ == child_href(book, chapter, page, o.system_id@, o.id@),
        (BlockBuilder::Proof(o), BlockBuilder::Proof(n)) => proof_href_set(n, o, page_href(book, chapter, page)),
        _ => new == old,
    }
}

/// Whether the addresses of a block can be set: a proof has fewer elements than the largest
/// number.
pub open spec fn href_ready(block: BlockBuilder) -> bool {
    block matches BlockBuilder::Proof(p) ==> p.elements@.len() < usize::MAX
}

impl BlockBuilder {
    /// Sets the address of a system, of a child of a system, and of the steps of a proof; other
    /// blocks have none.
    pub fn set_href(&mut self, book_id: &str, chapter_id: &str, page_id: &str)
        requires
            href_ready(*old(self)),
        ensures
            block_href_set(*final(self), *old(self), book_id@, chapter_id@, page_id@),
    {
        match self {
            BlockBuilder::System(b) => b.set_href(book_id, chapter_id, page_id),
            BlockBuilder::Symbol(b) => b.set_href(book_id, chapter_id, page_id),
            BlockBuilder::Definition(b) => b.set_href(book_id, chapter_id, page_id),
            BlockBuilder::Axiom(b) => b.set_href(book_id, chapter_id, page_id),
            BlockBuilder::Theorem(b) => b.set_href(book_id, chapter_id, page_id),
            BlockBuilder::Proof(p) => p.set_href(book_id, chapter_id, page_id),
            _ => {},
        }
    }
}

/// Whether a page has its address and those of its blocks set, and is otherwise unchanged.
pub open spec fn page_href_set(new: PageBuilder, old: PageBuilder, book: Seq<char>, chapter: Seq<char>) -> bool {
    &&& new.id == old.id
    &&& new.name == old.name
    &&& new.href@ == page_href(book, chapter, old.id@)
    &&& new.blocks@.len() == old.blocks@.len()
    &&& forall|i: int|
        0 <= i < old.blocks@.len() ==> #[trigger] block_href_set(new.blocks@[i], old.blocks@[i], book, chapter, old.id@)
}

/// Whether the addresses of the blocks of a page can be set.
pub open spec fn page_href_ready(page: PageBuilder) -> bool {
    forall|i: int| 0 <= i < page.blocks@.len() ==> href_ready(#[trigger] page.blocks@[i])
}

impl PageBuilder {
    /// Sets the address of the page, in a chapter of a book, and those of its blocks.
    pub fn set_href(&mut self, book_id: &str, chapter_id: &str)
        requires
            page_href_ready(*old(self)),
        ensures
            page_href_set(*final(self), *old(self), book_id@, chapter_id@),
    {
        let id = self.id.clone();
        self.href = make_page_href(book_id, chapter_id, id.as_str());
        let ghost original = self.blocks@;
        let mut i: usize = 0;
        while i < self.blocks.len()
            invariant
                i <= self.blocks@.len(),
                self.blocks@.len() == original.len(),
                original == old(self).blocks@,
                self.id == old(self).id,
                self.name == old(self).name,
                id@ == old(self).id@,
                self.href@ == page_href(book_id@, chapter_id@, old(self).id@),
                page_href_ready(*old(self)),
                forall|k: int| i <= k < original.len() ==> self.blocks@[k] == original[k],
                forall|k: int|
                    0 <= k < i ==> #[trigger] block_href_set(self.blocks@[k], original[k], book_id@, chapter_id@, old(self).id@),
            decreases original.len() - i,
        {
            assert(href_ready(original[i as int]));
            let mut block = self.blocks.remove(i);
            block.set_href(book_id, chapter_id, id.as_str());
            self.blocks.insert(i, block);
            i = i + 1;
        }
    }
}

/// Whether a chapter has its address and those of its pages set, and is otherwise unchanged.
pub open spec fn chapter_href_set(new: ChapterBuilder, old: ChapterBuilder, book: Seq<char>) -> bool {
    &&& new.id == old.id
    &&& new.name == old.name
    &&& new.tagline == old.tagline
    &&& new.href@ == chapter_href(book, old.id@)
    &&& new.pages@.len() == old.pages@.len()
    &&& forall|i: int| 0 <= i < old.pages@.len() ==> #[trigger] page_href_set(new.pages@[i], old.pages@[i], book, old.id@)
}

/// Whether the addresses of the blocks of the pages of a chapter can be set.
pub open spec fn chapter_href_ready(chapter: ChapterBuilder) -> bool {
    forall|i: int| 0 <= i < chapter.pages@.len() ==> page_href_ready(#[trigger] chapter.pages@[i])
}

impl ChapterBuilder {
    /// Sets the address of the chapter, in a book, and those of its pages.
    pub fn set_href(&mut self, book_id: &str)
        requires
            chapter_href_ready(*old(self)),
        ensures
            chapter_href_set(*final(self), *old(self), book_id@),
    {
        let id = self.id.clone();
        let mut href = String::new();
        href.append("/");
        href.append(book_id);
        href.append("/");
        href.append(id.as_str());
        self.href = href;
        let ghost original = self.pages@;
        let mut i: usize = 0;
        while i < self.pages.len()
            invariant
                i <= self.pages@.len(),
                self.pages@.len() == original.len(),
                original == old(self).pages@,
                self.id == old(self).id,
                self.name == old(self).name,
                self.tagline == old(self).tagline,
                id@ == old(self).id@,
                self.href@ == chapter_href(book_id@, old(self).id@),
                chapter_href_ready(*old(self)),
                forall|k: int| i <= k < original.len() ==> self.pages@[k] == original[k],
                forall|k: int| 0 <= k < i ==> #[trigger] page_href_set(self.pages@[k], original[k], book_id@, old(self).id@),
            decreases original.len() - i,
        {
            assert(page_href_ready(original[i as int]));
            let mut page = self.pages.remove(i);
            page.set_href(book_id, id.as_str());
            self.pages.insert(i, page);
            i = i + 1;
        }
    }
}

/// Whether a book has its address and those of its chapters set, and is otherwise unchanged.
pub open spec fn book_href_set(new: BookBuilder, old: BookBuilder) -> bool {
    &&& new.id == old.id
    &&& new.name == old.name
    &&& new.tagline == old.tagline
    &&& new.href@ == book_href(old.id@)
    &&& new.chapters@.len() == old.chapters@.len()
    &&& forall|i: int| 0 <= i < old.chapters@.len() ==> #[trigger] chapter_href_set(new.chapters@[i], old.chapters@[i], old.id@)
}

impl BookBuilder {
    /// Sets the address of the book and those of its chapters.
    pub fn set_href(&mut self)
        requires
            forall|i: int| 0 <= i < old(self).chapters@.len() ==> chapter_href_ready(#[trigger] old(self).chapters@[i]),
        ensures
            book_href_set(*final(self), *old(self)),
    {
        let id = self.id.clone();
        let mut href = String::new();
        href.append("/");
        href.append(id.as_str());
        self.href = href;
        let ghost original = self.chapters@;
        let mut i: usize = 0;
        while i < self.chapters.len()
            invariant
                i <= self.chapters@.len(),
                self.chapters@.len() == original.len(),
                original == old(self).chapters@,
                self.id == old(self).id,
                self.name == old(self).name,
                self.tagline == old(self).tagline,
                id@ == old(self).id@,
                self.href@ == book_href(old(self).id@),
                forall|k: int| 0 <= k < original.len() ==> chapter_href_ready(#[trigger] original[k]),
                forall|k: int| i <= k < original.len() ==> self.chapters@[k] == original[k],
                forall|k: int| 0 <= k < i ==> #[trigger] chapter_href_set(self.chapters@[k], original[k], old(self).id@),
            decreases original.len() - i,
        {
            assert(chapter_href_ready(original[i as int]));
            let mut chapter = self.chapters.remove(i);
            chapter.set_href(id.as_str());
            self.chapters.insert(i, chapter);
            i = i + 1;
        }
    }
}

} // verus!
