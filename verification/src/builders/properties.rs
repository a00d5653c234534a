use vstd::prelude::*;

use super::index::{BuilderIndex, SystemChildKind};
use super::language::{
    definition_entries_check, description_check, symbol_entries_check, tagline_check, texts_check,
    type_entries_check, DefinitionBuilderEntries, SymbolBuilderEntries, TypeBuilderEntries,
};
use super::errors::{ParagraphParsingError, ProofStepParsingError, TextParsingError};
use super::system::{
    axiom_entries_check, justification_error, system_entries_check, theorem_entries_check, AxiomBuilderEntries,
    ProofJustificationBuilder, SystemBuilderEntries, SystemChildJustificationBuilder, TheoremBuilderEntries,
};
use super::text::{
    closing_errors, paragraph_errors, paragraph_ok, paragraph_run, raw_citation_errors, raw_citation_ok, text_check,
    ParagraphBuilder, ParagraphFormattingState, TextBuilder, optional_field, title_check,
};
use super::directory::ProofBuilderStepRef;
use super::language::{first_binding, DeductableBuilder, DisplayFormulaBuilder, PropertyModel, ReadableBuilder};
use super::system::{claim_property, claims_step, flags_step, Claim, function_step, reflexivity_step, symmetry_step, transitivity_step};
use super::errors::Flag;

verus! {

/// A step of a proof may rest on a theorem only where a proof of that theorem was recorded before
/// the proof being checked: its serial number is smaller.
pub proof fn law_theorem_use_needs_earlier_proof(
    justification: SystemChildJustificationBuilder,
    system_id: Seq<char>,
    proof_serial: usize,
    premises: usize,
    index: BuilderIndex,
)
    requires
        index.child(system_id, justification.id@) matches Some(c) && c.kind == SystemChildKind::Theorem,
        justification_error(
            ProofJustificationBuilder::SystemChild(justification),
            system_id,
            proof_serial,
            premises,
            index,
        ) is None,
    ensures
        index.first_proof(system_id, justification.id@) matches Some(first) && first < proof_serial,
{
}

/// No proof rests on itself: in the first proof of a theorem, a step that cites the theorem is
/// rejected as circular.
pub proof fn law_first_proof_cannot_cite_its_theorem(
    justification: SystemChildJustificationBuilder,
    system_id: Seq<char>,
    proof_serial: usize,
    premises: usize,
    index: BuilderIndex,
)
    requires
        index.child(system_id, justification.id@) matches Some(c) && c.kind == SystemChildKind::Theorem,
        index.first_proof(system_id, justification.id@) == Some(proof_serial),
    ensures
        justification_error(
            ProofJustificationBuilder::SystemChild(justification),
            system_id,
            proof_serial,
            premises,
            index,
        ) == Some(ProofStepParsingError::TheoremJustificationCircularProof),
{
}

/// A paragraph that is rejected reports why: a style left open gives an error.
pub proof fn law_rejected_paragraph_reports(
    paragraph: ParagraphBuilder,
    index: BuilderIndex,
    tags: Option<Map<Seq<char>, ProofBuilderStepRef>>,
)
    ensures
        !paragraph_ok(paragraph, index, tags) ==> paragraph_errors(paragraph, index, tags).len() > 0,
{
    let run = paragraph_run(paragraph.elements@, index, tags);
    if !paragraph_ok(paragraph, index, tags) {
        assert(closing_errors(run.0).len() == 1);
        assert(paragraph_errors(paragraph, index, tags) == run.1 + closing_errors(run.0));
    }
}

/// A block of text that is rejected reports at least one error.
pub proof fn law_rejected_text_reports(
    text: TextBuilder,
    index: BuilderIndex,
    tags: Option<Map<Seq<char>, ProofBuilderStepRef>>,
)
    ensures
        !text_check(text, index, tags).0 ==> text_check(text, index, tags).1.len() > 0,
{
    match text {
        TextBuilder::Paragraph(p) => {
            law_rejected_paragraph_reports(p, index, tags);
        },
        TextBuilder::RawCitation(c) => {
            let author = optional_field(c.authors@, super::errors::RawCitationParsingError::DuplicateAuthor);
            let title = title_check(c.titles@);
            if !raw_citation_ok(c) {
                lemma_rejected_field_reports(c.authors@, super::errors::RawCitationParsingError::DuplicateAuthor);
                if c.titles@.len() > 0 {
                    lemma_rejected_field_reports(c.titles@, super::errors::RawCitationParsingError::DuplicateTitle);
                }
                assert(raw_citation_errors(c).len() >= author.1.len() + title.1.len());
            }
        },
        _ => {},
    }
}

proof fn lemma_rejected_field_reports(
    values: Seq<super::text::UnformattedBuilder>,
    duplicate: super::errors::RawCitationParsingError,
)
    ensures
        !optional_field(values, duplicate).0 ==> optional_field(values, duplicate).1.len() > 0,
{
}

proof fn lemma_rejected_texts_report(texts: Seq<TextBuilder>, index: BuilderIndex, n: nat)
    ensures
        !texts_check(texts, index, n).0 ==> texts_check(texts, index, n).1.len() > 0,
    decreases n,
{
    if n > 0 && n <= texts.len() {
        lemma_rejected_texts_report(texts, index, (n - 1) as nat);
        law_rejected_text_reports(texts[n - 1], index, None);
    }
}

proof fn lemma_rejected_prose_reports<E>(
    taglines: Seq<ParagraphBuilder>,
    descriptions: Seq<Vec<TextBuilder>>,
    index: BuilderIndex,
    missing: E,
    duplicate: E,
    wrap: spec_fn(ParagraphParsingError) -> E,
    duplicate_description: E,
    wrap_description: spec_fn((usize, TextParsingError)) -> E,
)
    ensures
        !tagline_check(taglines, index, missing, duplicate, wrap).0 ==> tagline_check(
            taglines,
            index,
            missing,
            duplicate,
            wrap,
        ).1.len() > 0,
        !description_check(descriptions, index, duplicate_description, wrap_description).0 ==> description_check(
            descriptions,
            index,
            duplicate_description,
            wrap_description,
        ).1.len() > 0,
{
    if taglines.len() == 1 {
        law_rejected_paragraph_reports(taglines[0], index, None);
    }
    if descriptions.len() == 1 {
        lemma_rejected_texts_report(descriptions[0]@, index, descriptions[0]@.len());
    }
}

/// A type block is accepted only with exactly one name and one tagline and at most one
/// description, and one that is rejected reports at least one error.
pub proof fn law_type_entries(entries: TypeBuilderEntries, index: BuilderIndex)
    ensures
        type_entries_check(entries, index).0 ==> entries.names@.len() == 1 && entries.taglines@.len() == 1
            && entries.descriptions@.len() <= 1,
        !type_entries_check(entries, index).0 ==> type_entries_check(entries, index).1.len() > 0,
{
    lemma_rejected_prose_reports(
        entries.taglines@,
        entries.descriptions@,
        index,
        super::errors::TypeParsingError::MissingTagline,
        super::errors::TypeParsingError::DuplicateTagline,
        |e: ParagraphParsingError| super::errors::TypeParsingError::TaglineParsingError(e),
        super::errors::TypeParsingError::DuplicateDescription,
        |p: (usize, TextParsingError)| super::errors::TypeParsingError::DescriptionParsingError(p.0, p.1),
    );
}

/// A system block is accepted only with exactly one name and one tagline and at most one
/// description, and one that is rejected reports at least one error.
pub proof fn law_system_entries(entries: SystemBuilderEntries, index: BuilderIndex)
    ensures
        system_entries_check(entries, index).0 ==> entries.names@.len() == 1 && entries.taglines@.len() == 1
            && entries.descriptions@.len() <= 1,
        !system_entries_check(entries, index).0 ==> system_entries_check(entries, index).1.len() > 0,
{
    lemma_rejected_prose_reports(
        entries.taglines@,
        entries.descriptions@,
        index,
        super::errors::SystemParsingError::MissingTagline,
        super::errors::SystemParsingError::DuplicateTagline,
        |e: ParagraphParsingError| super::errors::SystemParsingError::TaglineParsingError(e),
        super::errors::SystemParsingError::DuplicateDescription,
        |p: (usize, TextParsingError)| super::errors::SystemParsingError::DescriptionParsingError(p.0, p.1),
    );
}

/// A symbol block is accepted only with exactly one name, tagline and type signature, and at
/// most one description, reading and display; one that is rejected reports at least one error.
pub proof fn law_symbol_entries(entries: SymbolBuilderEntries, system_id: Seq<char>, serial: usize, index: BuilderIndex)
    ensures
        symbol_entries_check(entries, system_id, serial, index).0 ==> entries.names@.len() == 1
            && entries.taglines@.len() == 1 && entries.type_signatures@.len() == 1 && entries.descriptions@.len() <= 1
            && entries.reads@.len() <= 1 && entries.displays@.len() <= 1,
        !symbol_entries_check(entries, system_id, serial, index).0 ==> symbol_entries_check(
            entries,
            system_id,
            serial,
            index,
        ).1.len() > 0,
{
    lemma_rejected_prose_reports(
        entries.taglines@,
        entries.descriptions@,
        index,
        super::errors::SymbolParsingError::MissingTagline,
        super::errors::SymbolParsingError::DuplicateTagline,
        |e: ParagraphParsingError| super::errors::SymbolParsingError::TaglineParsingError(e),
        super::errors::SymbolParsingError::DuplicateDescription,
        |p: (usize, TextParsingError)| super::errors::SymbolParsingError::DescriptionParsingError(p.0, p.1),
    );
}

/// A definition block is accepted only with exactly one name, tagline and expansion, and at most
/// one description, list of inputs, reading and display; one that is rejected reports at least
/// one error.
pub proof fn law_definition_entries(
    entries: DefinitionBuilderEntries,
    system_id: Seq<char>,
    serial: usize,
    index: BuilderIndex,
)
    ensures
        definition_entries_check(entries, system_id, serial, index).0 ==> entries.names@.len() == 1
            && entries.taglines@.len() == 1 && entries.expansions@.len() == 1 && entries.descriptions@.len() <= 1
            && entries.inputs@.len() <= 1 && entries.reads@.len() <= 1 && entries.displays@.len() <= 1,
        !definition_entries_check(entries, system_id, serial, index).0 ==> definition_entries_check(
            entries,
            system_id,
            serial,
            index,
        ).1.len() > 0,
{
    lemma_rejected_prose_reports(
        entries.taglines@,
        entries.descriptions@,
        index,
        super::errors::DefinitionParsingError::MissingTagline,
        super::errors::DefinitionParsingError::DuplicateTagline,
        |e: ParagraphParsingError| super::errors::DefinitionParsingError::TaglineParsingError(e),
        super::errors::DefinitionParsingError::DuplicateDescription,
        |p: (usize, TextParsingError)| super::errors::DefinitionParsingError::DescriptionParsingError(p.0, p.1),
    );
}

/// An axiom block is accepted only with exactly one name, tagline and assertion, and at most one
/// description, flag list and premise; one that is rejected reports at least one error.
#[verifier::rlimit(40)]
pub proof fn law_axiom_entries(entries: AxiomBuilderEntries, system_id: Seq<char>, serial: usize, index: BuilderIndex)
    ensures
        axiom_entries_check(entries, system_id, serial, index).0 ==> entries.names@.len() == 1
            && entries.taglines@.len() == 1 && entries.assertions@.len() == 1 && entries.descriptions@.len() <= 1
            && entries.flag_lists@.len() <= 1 && entries.premises@.len() <= 1,
        !axiom_entries_check(entries, system_id, serial, index).0 ==> axiom_entries_check(
            entries,
            system_id,
            serial,
            index,
        ).1.len() > 0,
{
    lemma_rejected_prose_reports(
        entries.taglines@,
        entries.descriptions@,
        index,
        super::errors::AxiomParsingError::MissingTagline,
        super::errors::AxiomParsingError::DuplicateTagline,
        |e: ParagraphParsingError| super::errors::AxiomParsingError::TaglineParsingError(e),
        super::errors::AxiomParsingError::DuplicateDescription,
        |p: (usize, TextParsingError)| super::errors::AxiomParsingError::DescriptionParsingError(p.0, p.1),
    );
}

/// A theorem block is accepted only with exactly one name, tagline and assertion, and at most one
/// description, flag list and premise; one that is rejected reports at least one error.
#[verifier::rlimit(40)]
pub proof fn law_theorem_entries(
    entries: TheoremBuilderEntries,
    system_id: Seq<char>,
    serial: usize,
    index: BuilderIndex,
)
    ensures
        theorem_entries_check(entries, system_id, serial, index).0 ==> entries.names@.len() == 1
            && entries.taglines@.len() == 1 && entries.assertions@.len() == 1 && entries.descriptions@.len() <= 1
            && entries.flag_lists@.len() <= 1 && entries.premises@.len() <= 1,
        !theorem_entries_check(entries, system_id, serial, index).0 ==> theorem_entries_check(
            entries,
            system_id,
            serial,
            index,
        ).1.len() > 0,
{
    lemma_rejected_prose_reports(
        entries.taglines@,
        entries.descriptions@,
        index,
        super::errors::TheoremParsingError::MissingTagline,
        super::errors::TheoremParsingError::DuplicateTagline,
        |e: ParagraphParsingError| super::errors::TheoremParsingError::TaglineParsingError(e),
        super::errors::TheoremParsingError::DuplicateDescription,
        |p: (usize, TextParsingError)| super::errors::TheoremParsingError::DescriptionParsingError(p.0, p.1),
    );
}

/// Whether a table keeps every property of another: where a property was recorded, it stays,
/// with the statement that claimed it.
pub open spec fn keeps_properties(
    before: Map<ReadableBuilder, PropertyModel>,
    after: Map<ReadableBuilder, PropertyModel>,
) -> bool {
    &&& forall|r: ReadableBuilder| #[trigger] before.dom().contains(r) ==> after.dom().contains(r)
    &&& forall|r: ReadableBuilder|
        #[trigger] before.dom().contains(r) ==> {
            &&& before[r].reflexive is Some ==> after[r].reflexive == before[r].reflexive
            &&& before[r].symmetric is Some ==> after[r].symmetric == before[r].symmetric
            &&& before[r].transitive is Some ==> after[r].transitive == before[r].transitive
            &&& forall|rel: ReadableBuilder|
                #[trigger] first_binding(before[r].function, rel) is Some ==> first_binding(after[r].function, rel)
                    == first_binding(before[r].function, rel)
        }
}

proof fn lemma_first_binding_push(
    pairs: Seq<(ReadableBuilder, DeductableBuilder)>,
    p: (ReadableBuilder, DeductableBuilder),
    rel: ReadableBuilder,
)
    requires
        first_binding(pairs, rel) is Some,
    ensures
        first_binding(pairs.push(p), rel) == first_binding(pairs, rel),
{
    assert(pairs.push(p).drop_last() =~= pairs);
}

proof fn lemma_claim_keeps(
    table: Map<ReadableBuilder, PropertyModel>,
    readable: ReadableBuilder,
    claim: Claim,
    deductable: DeductableBuilder,
)
    requires
        table.dom().contains(readable),
    ensures
        keeps_properties(table, claim_property(table, readable, claim, deductable).0),
{
    let after = claim_property(table, readable, claim, deductable).0;
    assert forall|r: ReadableBuilder| #[trigger] table.dom().contains(r) implies {
        &&& table[r].reflexive is Some ==> after[r].reflexive == table[r].reflexive
        &&& table[r].symmetric is Some ==> after[r].symmetric == table[r].symmetric
        &&& table[r].transitive is Some ==> after[r].transitive == table[r].transitive
        &&& forall|rel: ReadableBuilder|
            #[trigger] first_binding(table[r].function, rel) is Some ==> first_binding(after[r].function, rel)
                == first_binding(table[r].function, rel)
    } by {
        assert forall|rel: ReadableBuilder| #[trigger] first_binding(table[r].function, rel) is Some implies first_binding(
            after[r].function,
            rel,
        ) == first_binding(table[r].function, rel) by {
            if let Claim::Function(relation) = claim {
                if r == readable && first_binding(table[r].function, relation) is None {
                    lemma_first_binding_push(table[r].function, (relation, deductable), rel);
                }
            }
        }
    }
}

proof fn lemma_keeps_transitive(
    a: Map<ReadableBuilder, PropertyModel>,
    b: Map<ReadableBuilder, PropertyModel>,
    c: Map<ReadableBuilder, PropertyModel>,
)
    requires
        keeps_properties(a, b),
        keeps_properties(b, c),
    ensures
        keeps_properties(a, c),
{
    assert forall|r: ReadableBuilder| #[trigger] a.dom().contains(r) implies {
        &&& a[r].reflexive is Some ==> c[r].reflexive == a[r].reflexive
        &&& a[r].symmetric is Some ==> c[r].symmetric == a[r].symmetric
        &&& a[r].transitive is Some ==> c[r].transitive == a[r].transitive
        &&& forall|rel: ReadableBuilder|
            #[trigger] first_binding(a[r].function, rel) is Some ==> first_binding(c[r].function, rel)
                == first_binding(a[r].function, rel)
    } by {
        assert(b.dom().contains(r));
        assert forall|rel: ReadableBuilder| #[trigger] first_binding(a[r].function, rel) is Some implies first_binding(
            c[r].function,
            rel,
        ) == first_binding(a[r].function, rel) by {
            assert(first_binding(b[r].function, rel) == first_binding(a[r].function, rel));
        }
    }
}

proof fn lemma_keeps_reflexive(a: Map<ReadableBuilder, PropertyModel>)
    ensures
        keeps_properties(a, a),
{
}

/// Checking the claims of a statement never takes back or changes a property recorded before: a
/// property claimed twice keeps the statement that claimed it first.
pub proof fn law_claims_keep_properties(
    reflexive: bool,
    symmetric: bool,
    transitive: bool,
    function: bool,
    premise: Seq<DisplayFormulaBuilder>,
    assertion: DisplayFormulaBuilder,
    deductable: DeductableBuilder,
    table: Map<ReadableBuilder, PropertyModel>,
)
    requires
        reflexive ==> super::system::reflexivity_defined(premise, assertion, table),
        symmetric ==> super::system::symmetry_defined(premise, assertion, table),
        transitive ==> super::system::transitivity_claim_defined(premise, assertion, table),
        function ==> super::system::function_defined(
            premise,
            assertion,
            claims_step(reflexive, symmetric, transitive, false, premise, assertion, deductable, table).0,
        ),
    ensures
        keeps_properties(
            table,
            claims_step(reflexive, symmetric, transitive, function, premise, assertion, deductable, table).0,
        ),
{
    let t0 = table;
    lemma_keeps_reflexive(t0);
    let t1 = if reflexive {
        reflexivity_step(premise, assertion, deductable, t0).0
    } else {
        t0
    };
    if reflexive {
        if let Ok(f) = super::system::reflexivity_outcome(premise, assertion) {
            lemma_claim_keeps(t0, f, Claim::Reflexive, deductable);
        }
    }
    assert(keeps_properties(t0, t1));
    assert(t1.dom() =~= t0.dom());
    let t2 = if symmetric {
        symmetry_step(premise, assertion, deductable, t1).0
    } else {
        t1
    };
    if symmetric {
        if let Some(f) = super::system::symmetry_outcome(premise, assertion).1 {
            lemma_claim_keeps(t1, f, Claim::Symmetric, deductable);
        }
    }
    lemma_keeps_reflexive(t1);
    lemma_keeps_transitive(t0, t1, t2);
    assert(t2.dom() =~= t0.dom());
    let t3 = if transitive {
        transitivity_step(premise, assertion, deductable, t2).0
    } else {
        t2
    };
    if transitive {
        if let Ok(f) = super::system::transitivity_outcome(premise, assertion) {
            lemma_claim_keeps(t2, f, Claim::Transitive, deductable);
        }
    }
    lemma_keeps_reflexive(t2);
    lemma_keeps_transitive(t0, t2, t3);
    assert(t3 == claims_step(reflexive, symmetric, transitive, false, premise, assertion, deductable, table).0);
    let t4 = if function {
        function_step(premise, assertion, deductable, t3).0
    } else {
        t3
    };
    if function {
        if let Ok((f, relation)) = super::system::function_outcome(premise, assertion, t3) {
            lemma_claim_keeps(t3, f, Claim::Function(relation), deductable);
        }
    }
    lemma_keeps_reflexive(t3);
    lemma_keeps_transitive(t0, t3, t4);
}

} // verus!
