use vstd::prelude::*;

use super::directory::{ProofBuilderStepRef, TagIndex};
use super::errors::{
    ReadableParsingError,
    AxiomParsingError, Flag, FlagListParsingError, ParagraphParsingError, ProofParsingError, ProofStepParsingError,
    SystemParsingError, TextParsingError, TheoremParsingError, VariableParsingError,
};
use super::index::{BuilderIndex, ProofIndexError, SystemChildKind};
use super::language::{
    first_binding, simple_binary_of, application_inputs, application_operator, DeductableBuilder,
    FormulaBuilder, PropertyList, PropertyModel, ReadableBuilder,
    check_description, check_optional, check_required, check_tagline, check_variables, description_check,
    optional_entry, prose_no_tag_references, required_entry, tagline_check, variables_errors, DisplayFormulaBuilder,
    VariableBuilder,
};
use super::language::{description_of, first_description};
use super::text::{math_error, text_check, TextBuilder};
use crate::deduction::errors::append_mapped;

verus! {

/// The entries of a system block as they are written.
pub struct SystemBuilderEntries {
    pub names: Vec<String>,
    pub taglines: Vec<super::text::ParagraphBuilder>,
    pub descriptions: Vec<Vec<TextBuilder>>,
}

/// What checking the entries of a system yields: a name and a tagline once each, a description
/// at most once; the tagline and the texts of the description are checked in turn.
pub open spec fn system_entries_check(entries: SystemBuilderEntries, index: BuilderIndex) -> (bool, Seq<
    SystemParsingError,
>) {
    let names = required_entry(entries.names@.len(), SystemParsingError::MissingName, SystemParsingError::DuplicateName);
    let tagline = tagline_check(
        entries.taglines@,
        index,
        SystemParsingError::MissingTagline,
        SystemParsingError::DuplicateTagline,
        |e: ParagraphParsingError| SystemParsingError::TaglineParsingError(e),
    );
    let description = description_check(
        entries.descriptions@,
        index,
        SystemParsingError::DuplicateDescription,
        |p: (usize, TextParsingError)| SystemParsingError::DescriptionParsingError(p.0, p.1),
    );
    (names.0 && tagline.0 && description.0, names.1 + tagline.1 + description.1)
}

fn system_tagline_error(e: ParagraphParsingError) -> (r: SystemParsingError)
    ensures
        r == SystemParsingError::TaglineParsingError(e),
{
    SystemParsingError::TaglineParsingError(e)
}

fn system_description_error(p: (usize, TextParsingError)) -> (r: SystemParsingError)
    ensures
        r == SystemParsingError::DescriptionParsingError(p.0, p.1),
{
    SystemParsingError::DescriptionParsingError(p.0, p.1)
}

impl SystemBuilderEntries {
    /// Checks the entries of a system block. Whether the block passed is returned with the
    /// errors.
    pub fn verify_structure(&self, index: &BuilderIndex) -> (r: (bool, Vec<SystemParsingError>))
        requires
            index.wf(),
            prose_no_tag_references(self.taglines@, self.descriptions@),
        ensures
            r.0 == system_entries_check(*self, *index).0,
            r.1@ == system_entries_check(*self, *index).1,
    {
        let mut errors: Vec<SystemParsingError> = Vec::new();
        let a = check_required(
            self.names.len(),
            SystemParsingError::MissingName,
            SystemParsingError::DuplicateName,
            &mut errors,
        );
        let b = check_tagline(
            &self.taglines,
            index,
            SystemParsingError::MissingTagline,
            SystemParsingError::DuplicateTagline,
            system_tagline_error,
            Ghost(|e: ParagraphParsingError| SystemParsingError::TaglineParsingError(e)),
            &mut errors,
        );
        let c = check_description(
            &self.descriptions,
            index,
            SystemParsingError::DuplicateDescription,
            system_description_error,
            Ghost(|p: (usize, TextParsingError)| SystemParsingError::DescriptionParsingError(p.0, p.1)),
            &mut errors,
        );
        proof {
            let check = system_entries_check(*self, *index);
            assert(errors@ =~= check.1);
        }
        (a && b && c, errors)
    }
}

/// The properties that an axiom or theorem claims, as they are listed.
pub struct FlagList {
    pub raw_list: Vec<Flag>,
}

/// The errors of a list of flags: one for every flag that was listed before.
pub open spec fn flag_list_errors(flags: Seq<Flag>) -> Seq<FlagListParsingError>
    decreases flags.len(),
{
    if flags.len() == 0 {
        seq![]
    } else {
        flag_list_errors(flags.drop_last()) + if flags.drop_last().contains(flags.last()) {
            seq![FlagListParsingError::DuplicateFlag(flags.last())]
        } else {
            seq![]
        }
    }
}

impl FlagList {
    /// Checks that no flag is listed twice; each repetition is an error.
    pub fn verify_structure(&self) -> (r: Vec<FlagListParsingError>)
        ensures
            r@ == flag_list_errors(self.raw_list@),
    {
        let mut errors: Vec<FlagListParsingError> = Vec::new();
        let mut reflexive = false;
        let mut symmetric = false;
        let mut transitive = false;
        let mut function = false;
        let mut i: usize = 0;
        while i < self.raw_list.len()
            invariant
                i <= self.raw_list@.len(),
                reflexive == self.raw_list@.take(i as int).contains(Flag::Reflexive),
                symmetric == self.raw_list@.take(i as int).contains(Flag::Symmetric),
                transitive == self.raw_list@.take(i as int).contains(Flag::Transitive),
                function == self.raw_list@.take(i as int).contains(Flag::Function),
                errors@ == flag_list_errors(self.raw_list@.take(i as int)),
            decreases self.raw_list@.len() - i,
        {
            let flag = self.raw_list[i];
            let ghost prefix = self.raw_list@.take(i as int);
            let ghost next = self.raw_list@.take(i + 1);
            proof {
                assert(next.drop_last() =~= prefix);
                assert(next.last() == flag);
                assert forall|f: Flag| next.contains(f) == (prefix.contains(f) || f == flag) by {
                    if next.contains(f) {
                        let k = choose|k: int| 0 <= k < next.len() && next[k] == f;
                        if k < prefix.len() {
                            assert(prefix[k] == f);
                        }
                    }
                    if prefix.contains(f) {
                        let k = choose|k: int| 0 <= k < prefix.len() && prefix[k] == f;
                        assert(next[k] == f);
                    }
                    if f == flag {
                        assert(next[i as int] == f);
                    }
                }
            }
            let seen = match flag {
                Flag::Reflexive => reflexive,
                Flag::Symmetric => symmetric,
                Flag::Transitive => transitive,
                Flag::Function => function,
            };
            if seen {
                errors.push(FlagListParsingError::DuplicateFlag(flag));
            }
            match flag {
                Flag::Reflexive => reflexive = true,
                Flag::Symmetric => symmetric = true,
                Flag::Transitive => transitive = true,
                Flag::Function => function = true,
            }
            proof {
                assert(errors@ =~= flag_list_errors(next));
            }
            i = i + 1;
        }
        proof {
            assert(self.raw_list@.take(i as int) =~= self.raw_list@);
        }
        errors
    }
}

/// What checking the flag list entries of a block yields: at most one list, whose repeated flags
/// are errors.
pub open spec fn flag_lists_check<E>(
    lists: Seq<FlagList>,
    duplicate: E,
    wrap: spec_fn(FlagListParsingError) -> E,
) -> (bool, Seq<E>) {
    if lists.len() == 1 {
        let inner = flag_list_errors(lists[0].raw_list@);
        (inner.len() == 0, inner.map_values(wrap))
    } else {
        optional_entry(lists.len(), duplicate)
    }
}

fn check_flag_lists<E: Copy, F: Fn(FlagListParsingError) -> E>(
    lists: &Vec<FlagList>,
    duplicate: E,
    f: F,
    Ghost(wrap): Ghost<spec_fn(FlagListParsingError) -> E>,
    errors: &mut Vec<E>,
) -> (r: bool)
    requires
        forall|a: FlagListParsingError| #[trigger] f.requires((a,)),
        forall|a: FlagListParsingError, b: E| f.ensures((a,), b) ==> b == wrap(a),
    ensures
        r == flag_lists_check(lists@, duplicate, wrap).0,
        final(errors)@ == old(errors)@ + flag_lists_check(lists@, duplicate, wrap).1,
{
    if lists.len() == 1 {
        let inner = lists[0].verify_structure();
        let success = inner.len() == 0;
        append_mapped(errors, &inner, f, Ghost(wrap));
        success
    } else {
        check_optional(lists.len(), duplicate, errors)
    }
}

/// What checking the variables of a block yields: whether none has an error, and the errors of
/// each, tagged.
pub open spec fn vars_check<E>(
    vars: Seq<VariableBuilder>,
    parent_system: Seq<char>,
    serial: usize,
    index: BuilderIndex,
    wrap: spec_fn((usize, VariableParsingError)) -> E,
) -> (bool, Seq<E>) {
    let inner = variables_errors(vars, parent_system, serial, index, vars.len());
    (inner.len() == 0, inner.map_values(wrap))
}

fn check_vars<E: Copy, F: Fn((usize, VariableParsingError)) -> E>(
    vars: &Vec<VariableBuilder>,
    parent_system: &str,
    serial: usize,
    index: &BuilderIndex,
    f: F,
    Ghost(wrap): Ghost<spec_fn((usize, VariableParsingError)) -> E>,
    errors: &mut Vec<E>,
) -> (r: bool)
    requires
        index.wf(),
        forall|a: (usize, VariableParsingError)| #[trigger] f.requires((a,)),
        forall|a: (usize, VariableParsingError), b: E| f.ensures((a,), b) ==> b == wrap(a),
    ensures
        r == vars_check(vars@, parent_system@, serial, *index, wrap).0,
        final(errors)@ == old(errors)@ + vars_check(vars@, parent_system@, serial, *index, wrap).1,
{
    let inner = check_variables(vars, parent_system, serial, index);
    let success = inner.len() == 0;
    append_mapped(errors, &inner, f, Ghost(wrap));
    success
}

/// Whether the displayed formulas of the premise and assertion entries are rows without
/// operators that take input rows, as formulas are.
pub open spec fn formulas_displayable(
    premises: Seq<Vec<DisplayFormulaBuilder>>,
    assertions: Seq<DisplayFormulaBuilder>,
) -> bool {
    &&& premises.len() == 1 ==> forall|i: int|
        0 <= i < premises[0]@.len() ==> math_error((#[trigger] premises[0]@[i]).display) is None
    &&& assertions.len() == 1 ==> math_error(assertions[0].display) is None
}

/// The entries of an axiom block as they are written.
pub struct AxiomBuilderEntries {
    pub names: Vec<String>,
    pub taglines: Vec<super::text::ParagraphBuilder>,
    pub descriptions: Vec<Vec<TextBuilder>>,

    pub flag_lists: Vec<FlagList>,
    pub vars: Vec<VariableBuilder>,
    pub premises: Vec<Vec<DisplayFormulaBuilder>>,
    pub assertions: Vec<DisplayFormulaBuilder>,
}

/// What checking the entries of an axiom yields: a name, a tagline and an assertion once each; a
/// description, a flag list and a premise at most once; every variable must have a sound type.
pub open spec fn axiom_entries_check(
    entries: AxiomBuilderEntries,
    parent_system: Seq<char>,
    serial: usize,
    index: BuilderIndex,
) -> (bool, Seq<AxiomParsingError>) {
    let names = required_entry(entries.names@.len(), AxiomParsingError::MissingName, AxiomParsingError::DuplicateName);
    let tagline = tagline_check(
        entries.taglines@,
        index,
        AxiomParsingError::MissingTagline,
        AxiomParsingError::DuplicateTagline,
        |e: ParagraphParsingError| AxiomParsingError::TaglineParsingError(e),
    );
    let description = description_check(
        entries.descriptions@,
        index,
        AxiomParsingError::DuplicateDescription,
        |p: (usize, TextParsingError)| AxiomParsingError::DescriptionParsingError(p.0, p.1),
    );
    let flags = flag_lists_check(
        entries.flag_lists@,
        AxiomParsingError::DuplicateFlagList,
        |e: FlagListParsingError| AxiomParsingError::FlagListError(e),
    );
    let vars = vars_check(
        entries.vars@,
        parent_system,
        serial,
        index,
        |p: (usize, VariableParsingError)| AxiomParsingError::VariableError(p.0, p.1),
    );
    let premises = optional_entry(entries.premises@.len(), AxiomParsingError::DuplicatePremise);
    let assertions = required_entry(
        entries.assertions@.len(),
        AxiomParsingError::MissingAssertion,
        AxiomParsingError::DuplicateAssertion,
    );
    (
        names.0 && tagline.0 && description.0 && flags.0 && vars.0 && premises.0 && assertions.0,
        names.1 + tagline.1 + description.1 + flags.1 + vars.1 + premises.1 + assertions.1,
    )
}

fn axiom_tagline_error(e: ParagraphParsingError) -> (r: AxiomParsingError)
    ensures
        r == AxiomParsingError::TaglineParsingError(e),
{
    AxiomParsingError::TaglineParsingError(e)
}

fn axiom_description_error(p: (usize, TextParsingError)) -> (r: AxiomParsingError)
    ensures
        r == AxiomParsingError::DescriptionParsingError(p.0, p.1),
{
    AxiomParsingError::DescriptionParsingError(p.0, p.1)
}

fn axiom_flag_error(e: FlagListParsingError) -> (r: AxiomParsingError)
    ensures
        r == AxiomParsingError::FlagListError(e),
{
    AxiomParsingError::FlagListError(e)
}

fn axiom_variable_error(p: (usize, VariableParsingError)) -> (r: AxiomParsingError)
    ensures
        r == AxiomParsingError::VariableError(p.0, p.1),
{
    AxiomParsingError::VariableError(p.0, p.1)
}

impl AxiomBuilderEntries {
    /// Checks the entries of an axiom block of the system `parent_system` whose serial number is
    /// `serial`. Whether the block passed is returned with the errors.
    pub fn verify_structure(&self, parent_system: &str, serial: usize, index: &BuilderIndex) -> (r: (
        bool,
        Vec<AxiomParsingError>,
    ))
        requires
            index.wf(),
            prose_no_tag_references(self.taglines@, self.descriptions@),
            formulas_displayable(self.premises@, self.assertions@),
        ensures
            r.0 == axiom_entries_check(*self, parent_system@, serial, *index).0,
            r.1@ == axiom_entries_check(*self, parent_system@, serial, *index).1,
    {
        let mut errors: Vec<AxiomParsingError> = Vec::new();
        let a = check_required(
            self.names.len(),
            AxiomParsingError::MissingName,
            AxiomParsingError::DuplicateName,
            &mut errors,
        );
        let b = check_tagline(
            &self.taglines,
            index,
            AxiomParsingError::MissingTagline,
            AxiomParsingError::DuplicateTagline,
            axiom_tagline_error,
            Ghost(|e: ParagraphParsingError| AxiomParsingError::TaglineParsingError(e)),
            &mut errors,
        );
        let c = check_description(
            &self.descriptions,
            index,
            AxiomParsingError::DuplicateDescription,
            axiom_description_error,
            Ghost(|p: (usize, TextParsingError)| AxiomParsingError::DescriptionParsingError(p.0, p.1)),
            &mut errors,
        );
        let d = check_flag_lists(
            &self.flag_lists,
            AxiomParsingError::DuplicateFlagList,
            axiom_flag_error,
            Ghost(|e: FlagListParsingError| AxiomParsingError::FlagListError(e)),
            &mut errors,
        );
        let e = check_vars(
            &self.vars,
            parent_system,
            serial,
            index,
            axiom_variable_error,
            Ghost(|p: (usize, VariableParsingError)| AxiomParsingError::VariableError(p.0, p.1)),
            &mut errors,
        );
        let f = check_optional(self.premises.len(), AxiomParsingError::DuplicatePremise, &mut errors);
        let g = check_required(
            self.assertions.len(),
            AxiomParsingError::MissingAssertion,
            AxiomParsingError::DuplicateAssertion,
            &mut errors,
        );
        proof {
            let check = axiom_entries_check(*self, parent_system@, serial, *index);
            assert(errors@ =~= check.1);
        }
        (a && b && c && d && e && f && g, errors)
    }
}

/// The entries of a theorem block as they are written.
pub struct TheoremBuilderEntries {
    pub names: Vec<String>,
    pub taglines: Vec<super::text::ParagraphBuilder>,
    pub descriptions: Vec<Vec<TextBuilder>>,

    pub flag_lists: Vec<FlagList>,
    pub vars: Vec<VariableBuilder>,
    pub premises: Vec<Vec<DisplayFormulaBuilder>>,
    pub assertions: Vec<DisplayFormulaBuilder>,
}

/// What checking the entries of a theorem yields: as for an axiom, except that errors of its
/// variables are reported without making the block fail.
pub open spec fn theorem_entries_check(
    entries: TheoremBuilderEntries,
    parent_system: Seq<char>,
    serial: usize,
    index: BuilderIndex,
) -> (bool, Seq<TheoremParsingError>) {
    let names = required_entry(
        entries.names@.len(),
        TheoremParsingError::MissingName,
        TheoremParsingError::DuplicateName,
    );
    let tagline = tagline_check(
        entries.taglines@,
        index,
        TheoremParsingError::MissingTagline,
        TheoremParsingError::DuplicateTagline,
        |e: ParagraphParsingError| TheoremParsingError::TaglineParsingError(e),
    );
    let description = description_check(
        entries.descriptions@,
        index,
        TheoremParsingError::DuplicateDescription,
        |p: (usize, TextParsingError)| TheoremParsingError::DescriptionParsingError(p.0, p.1),
    );
    let flags = flag_lists_check(
        entries.flag_lists@,
        TheoremParsingError::DuplicateFlagList,
        |e: FlagListParsingError| TheoremParsingError::FlagListError(e),
    );
    let vars = vars_check(
        entries.vars@,
        parent_system,
        serial,
        index,
        |p: (usize, VariableParsingError)| TheoremParsingError::VariableError(p.0, p.1),
    );
    let premises = optional_entry(entries.premises@.len(), TheoremParsingError::DuplicatePremise);
    let assertions = required_entry(
        entries.assertions@.len(),
        TheoremParsingError::MissingAssertion,
        TheoremParsingError::DuplicateAssertion,
    );
    (
        names.0 && tagline.0 && description.0 && flags.0 && premises.0 && assertions.0,
        names.1 + tagline.1 + description.1 + flags.1 + vars.1 + premises.1 + assertions.1,
    )
}

fn theorem_tagline_error(e: ParagraphParsingError) -> (r: TheoremParsingError)
    ensures
        r == TheoremParsingError::TaglineParsingError(e),
{
    TheoremParsingError::TaglineParsingError(e)
}

fn theorem_description_error(p: (usize, TextParsingError)) -> (r: TheoremParsingError)
    ensures
        r == TheoremParsingError::DescriptionParsingError(p.0, p.1),
{
    TheoremParsingError::DescriptionParsingError(p.0, p.1)
}

fn theorem_flag_error(e: FlagListParsingError) -> (r: TheoremParsingError)
    ensures
        r == TheoremParsingError::FlagListError(e),
{
    TheoremParsingError::FlagListError(e)
}

fn theorem_variable_error(p: (usize, VariableParsingError)) -> (r: TheoremParsingError)
    ensures
        r == TheoremParsingError::VariableError(p.0, p.1),
{
    TheoremParsingError::VariableError(p.0, p.1)
}

impl TheoremBuilderEntries {
    /// Checks the entries of a theorem block of the system `parent_system` whose serial number is
    /// `serial`. Whether the block passed is returned with the errors.
    pub fn verify_structure(&self, parent_system: &str, serial: usize, index: &BuilderIndex) -> (r: (
        bool,
        Vec<TheoremParsingError>,
    ))
        requires
            index.wf(),
            prose_no_tag_references(self.taglines@, self.descriptions@),
            formulas_displayable(self.premises@, self.assertions@),
        ensures
            r.0 == theorem_entries_check(*self, parent_system@, serial, *index).0,
            r.1@ == theorem_entries_check(*self, parent_system@, serial, *index).1,
    {
        let mut errors: Vec<TheoremParsingError> = Vec::new();
        let a = check_required(
            self.names.len(),
            TheoremParsingError::MissingName,
            TheoremParsingError::DuplicateName,
            &mut errors,
        );
        let b = check_tagline(
            &self.taglines,
            index,
            TheoremParsingError::MissingTagline,
            TheoremParsingError::DuplicateTagline,
            theorem_tagline_error,
            Ghost(|e: ParagraphParsingError| TheoremParsingError::TaglineParsingError(e)),
            &mut errors,
        );
        let c = check_description(
            &self.descriptions,
            index,
            TheoremParsingError::DuplicateDescription,
            theorem_description_error,
            Ghost(|p: (usize, TextParsingError)| TheoremParsingError::DescriptionParsingError(p.0, p.1)),
            &mut errors,
        );
        let d = check_flag_lists(
            &self.flag_lists,
            TheoremParsingError::DuplicateFlagList,
            theorem_flag_error,
            Ghost(|e: FlagListParsingError| TheoremParsingError::FlagListError(e)),
            &mut errors,
        );
        let _ = check_vars(
            &self.vars,
            parent_system,
            serial,
            index,
            theorem_variable_error,
            Ghost(|p: (usize, VariableParsingError)| TheoremParsingError::VariableError(p.0, p.1)),
            &mut errors,
        );
        let f = check_optional(self.premises.len(), TheoremParsingError::DuplicatePremise, &mut errors);
        let g = check_required(
            self.assertions.len(),
            TheoremParsingError::MissingAssertion,
            TheoremParsingError::DuplicateAssertion,
            &mut errors,
        );
        proof {
            let check = theorem_entries_check(*self, parent_system@, serial, *index);
            assert(errors@ =~= check.1);
        }
        (a && b && c && d && f && g, errors)
    }
}

/// A step justified by an axiom or theorem of the system, named by its id.
pub struct SystemChildJustificationBuilder {
    pub id: String,
}

/// A step justified by a rule that expands into several small steps.
#[derive(Clone, Copy, PartialEq, Eq, Debug, Structural)]
pub enum MacroJustificationBuilder {
    Definition,
    FunctionApplication,
}

/// How a step of a proof is justified: by an axiom or theorem, by a rule, or by a premise of the
/// theorem, counted from one.
pub enum ProofJustificationBuilder {
    SystemChild(SystemChildJustificationBuilder),
    Macro(MacroJustificationBuilder),
    Hypothesis(usize),
}

/// The error of a justification, if any, in a proof of a theorem with `premises` premises whose
/// block has the serial number `proof_serial`. An axiom may always be used; a theorem only once a
/// proof of it stands before this one, so that no proof rests on itself; a premise must exist.
pub open spec fn justification_error(
    justification: ProofJustificationBuilder,
    system_id: Seq<char>,
    proof_serial: usize,
    premises: usize,
    index: BuilderIndex,
) -> Option<ProofStepParsingError> {
    match justification {
        ProofJustificationBuilder::SystemChild(j) => system_child_justification_error(j, system_id, proof_serial, index),
        ProofJustificationBuilder::Macro(_) => None,
        ProofJustificationBuilder::Hypothesis(id) => if id == 0 {
            Some(ProofStepParsingError::HypothesisZeroIndex)
        } else if id > premises {
            Some(ProofStepParsingError::HypothesisIndexOutOfRange)
        } else {
            None
        },
    }
}

/// The error of a justification by an axiom or theorem, if any (see `justification_error`).
pub open spec fn system_child_justification_error(
    justification: SystemChildJustificationBuilder,
    system_id: Seq<char>,
    proof_serial: usize,
    index: BuilderIndex,
) -> Option<ProofStepParsingError> {
    match index.child(system_id, justification.id@) {
        None => Some(ProofStepParsingError::SystemChildJustificationNotFound),
        Some(child) => match child.kind {
            SystemChildKind::Axiom => None,
            SystemChildKind::Theorem => match index.first_proof(system_id, justification.id@) {
                None => Some(ProofStepParsingError::TheoremJustificationUnproven),
                Some(first) => if proof_serial < first {
                    Some(ProofStepParsingError::TheoremJustificationUsedBeforeProof)
                } else if proof_serial == first {
                    Some(ProofStepParsingError::TheoremJustificationCircularProof)
                } else {
                    None
                },
            },
            _ => Some(ProofStepParsingError::SystemChildJustificationWrongKind),
        },
    }
}

impl SystemChildJustificationBuilder {
    /// Checks that the id names an axiom, or a theorem with a proof before the proof whose serial
    /// number is `proof_serial`.
    pub fn verify_structure(&self, system_id: &str, proof_serial: usize, index: &BuilderIndex) -> (r: Option<
        ProofStepParsingError,
    >)
        requires
            index.wf(),
        ensures
            r == system_child_justification_error(*self, system_id@, proof_serial, *index),
    {
        match index.search_system_child(system_id, self.id.as_str()) {
            None => Some(ProofStepParsingError::SystemChildJustificationNotFound),
            Some(child) => match child.kind {
                SystemChildKind::Axiom => None,
                SystemChildKind::Theorem => match index.search_first_proof(system_id, self.id.as_str()) {
                    None => Some(ProofStepParsingError::TheoremJustificationUnproven),
                    Some(first) => if proof_serial < first {
                        Some(ProofStepParsingError::TheoremJustificationUsedBeforeProof)
                    } else if proof_serial == first {
                        Some(ProofStepParsingError::TheoremJustificationCircularProof)
                    } else {
                        None
                    },
                },
                _ => Some(ProofStepParsingError::SystemChildJustificationWrongKind),
            },
        }
    }
}

impl ProofJustificationBuilder {
    pub fn verify_structure(
        &self,
        system_id: &str,
        proof_serial: usize,
        premises: usize,
        index: &BuilderIndex,
    ) -> (r: Option<ProofStepParsingError>)
        requires
            index.wf(),
        ensures
            r == justification_error(*self, system_id@, proof_serial, premises, *index),
    {
        match self {
            ProofJustificationBuilder::SystemChild(j) => j.verify_structure(system_id, proof_serial, index),
            ProofJustificationBuilder::Macro(_) => None,
            ProofJustificationBuilder::Hypothesis(id) => if *id == 0 {
                Some(ProofStepParsingError::HypothesisZeroIndex)
            } else if *id > premises {
                Some(ProofStepParsingError::HypothesisIndexOutOfRange)
            } else {
                None
            },
        }
    }
}

/// The justification and tag entries of a step.
pub struct ProofBuilderMeta {
    pub justifications: Vec<ProofJustificationBuilder>,
    pub tags: Vec<String>,
}

/// A step of a proof as it is written: its entries, its formula and the punctuation after it.
pub struct ProofBuilderStep {
    pub meta: ProofBuilderMeta,
    pub formula: DisplayFormulaBuilder,
    pub end: String,
    /// The number the step is shown with, its id and its address, once they are set.
    pub tag: usize,
    pub id: String,
    pub href: String,
}

/// The errors of the justification of a step: it must be given once, and is then checked.
pub open spec fn step_errors(
    step: ProofBuilderStep,
    system_id: Seq<char>,
    proof_serial: usize,
    premises: usize,
    index: BuilderIndex,
) -> Seq<ProofStepParsingError> {
    let justifications = step.meta.justifications@;
    if justifications.len() == 1 {
        match justification_error(justifications[0], system_id, proof_serial, premises, index) {
            Some(e) => seq![e],
            None => seq![],
        }
    } else {
        seq![ProofStepParsingError::MissingJustification]
    }
}

impl ProofBuilderStep {
    pub fn verify_structure(
        &self,
        system_id: &str,
        proof_serial: usize,
        premises: usize,
        index: &BuilderIndex,
    ) -> (r: Vec<ProofStepParsingError>)
        requires
            index.wf(),
        ensures
            r@ == step_errors(*self, system_id@, proof_serial, premises, *index),
    {
        let mut errors = Vec::new();
        if self.meta.justifications.len() == 1 {
            match self.meta.justifications[0].verify_structure(system_id, proof_serial, premises, index) {
                Some(e) => errors.push(e),
                None => {},
            }
        } else {
            errors.push(ProofStepParsingError::MissingJustification);
        }
        errors
    }
}

/// An element of a proof: a block of text or a step.
pub enum ProofBuilderElement {
    Text(TextBuilder),
    Step(ProofBuilderStep),
}

/// A proof as it is written: the system and theorem it proves, the serial number of its block,
/// and its elements.
pub struct ProofBuilder {
    pub system_id: String,
    pub theorem_id: String,
    pub serial: usize,
    pub elements: Vec<ProofBuilderElement>,
}

/// Gathering the tags of the steps in order: each tag names the first step that gives it; a
/// step that gives a tag taken before, or more than one tag, is an error.
pub open spec fn proof_tags(elements: Seq<ProofBuilderElement>) -> (Map<Seq<char>, ProofBuilderStepRef>, Seq<
    ProofParsingError,
>)
    decreases elements.len(),
{
    if elements.len() == 0 {
        (Map::empty(), seq![])
    } else {
        let before = proof_tags(elements.drop_last());
        let i = (elements.len() - 1) as usize;
        match elements.last() {
            ProofBuilderElement::Text(_) => before,
            ProofBuilderElement::Step(step) => {
                let tags = step.meta.tags@;
                if tags.len() == 0 {
                    before
                } else if tags.len() == 1 {
                    if before.0.contains_key(tags[0]@) {
                        (
                            before.0,
                            before.1 + seq![
                                ProofParsingError::StepError(
                                    i,
                                    ProofStepParsingError::TagAlreadyTaken(before.0[tags[0]@]),
                                ),
                            ],
                        )
                    } else {
                        (before.0.insert(tags[0]@, ProofBuilderStepRef(i)), before.1)
                    }
                } else {
                    (before.0, before.1 + seq![ProofParsingError::StepError(i, ProofStepParsingError::DuplicateTags)])
                }
            },
        }
    }
}

/// The errors of the first `n` elements of a proof, each tagged with the position of its
/// element: texts are checked with the tags of the proof, steps for their justification.
pub open spec fn proof_elements_errors(
    elements: Seq<ProofBuilderElement>,
    n: nat,
    system_id: Seq<char>,
    proof_serial: usize,
    premises: usize,
    index: BuilderIndex,
    tags: Map<Seq<char>, ProofBuilderStepRef>,
) -> Seq<ProofParsingError>
    decreases n,
{
    if n == 0 || n > elements.len() {
        seq![]
    } else {
        let i = (n - 1) as usize;
        proof_elements_errors(elements, (n - 1) as nat, system_id, proof_serial, premises, index, tags) + match elements[
            n - 1
        ] {
            ProofBuilderElement::Text(t) => text_check(t, index, Some(tags)).1.map_values(
                |e: TextParsingError| ProofParsingError::TextError(i, e),
            ),
            ProofBuilderElement::Step(s) => step_errors(s, system_id, proof_serial, premises, index).map_values(
                |e: ProofStepParsingError| ProofParsingError::StepError(i, e),
            ),
        }
    }
}

/// Whether every step of a proof displays a formula without operators that take input rows.
pub open spec fn steps_displayable(elements: Seq<ProofBuilderElement>) -> bool {
    forall|i: int|
        0 <= i < elements.len() ==> (#[trigger] elements[i] matches ProofBuilderElement::Step(s) ==> math_error(
            s.formula.display,
        ) is None)
}

/// The errors of a proof, checked against the index before it was recorded and after: its
/// theorem must exist; the tags are then gathered, and every text and step is checked in order.
pub open spec fn proof_check(proof: ProofBuilder, before: BuilderIndex, after: BuilderIndex) -> Seq<ProofParsingError> {
    match before.child(proof.system_id@, proof.theorem_id@) {
        None => seq![ProofParsingError::ParentNotFound],
        Some(c) => if c.kind != SystemChildKind::Theorem {
            seq![ProofParsingError::ParentNotTheorem]
        } else {
            proof_tags(proof.elements@).1 + proof_elements_errors(
                proof.elements@,
                proof.elements@.len(),
                proof.system_id@,
                proof.serial,
                c.premises,
                after,
                proof_tags(proof.elements@).0,
            )
        },
    }
}

impl ProofBuilder {
    /// Gathers the tags of the steps into `tags`, with the errors of tags given twice.
    fn build_tag_index(&self, tags: &mut TagIndex) -> (r: Vec<ProofParsingError>)
        requires
            old(tags).wf(),
            old(tags).tags.model() == Map::<Seq<char>, ProofBuilderStepRef>::empty(),
        ensures
            final(tags).wf(),
            final(tags).tags.model() == proof_tags(self.elements@).0,
            r@ == proof_tags(self.elements@).1,
    {
        let mut errors: Vec<ProofParsingError> = Vec::new();
        let mut i: usize = 0;
        while i < self.elements.len()
            invariant
                i <= self.elements@.len(),
                tags.wf(),
                tags.tags.model() == proof_tags(self.elements@.take(i as int)).0,
                errors@ == proof_tags(self.elements@.take(i as int)).1,
            decreases self.elements@.len() - i,
        {
            proof {
                assert(self.elements@.take(i + 1).drop_last() =~= self.elements@.take(i as int));
                assert(self.elements@.take(i + 1).last() == self.elements@[i as int]);
            }
            match &self.elements[i] {
                ProofBuilderElement::Text(_) => {},
                ProofBuilderElement::Step(step) => {
                    if step.meta.tags.len() == 1 {
                        match tags.search(step.meta.tags[0].as_str()) {
                            Some(old_step) => {
                                errors.push(
                                    ProofParsingError::StepError(i, ProofStepParsingError::TagAlreadyTaken(old_step)),
                                );
                            },
                            None => {
                                tags.add_tag(step.meta.tags[0].as_str(), ProofBuilderStepRef(i));
                            },
                        }
                    } else if step.meta.tags.len() > 1 {
                        errors.push(ProofParsingError::StepError(i, ProofStepParsingError::DuplicateTags));
                    }
                },
            }
            i = i + 1;
        }
        proof {
            assert(self.elements@.take(i as int) =~= self.elements@);
        }
        errors
    }

    /// Checks a proof. Its theorem must exist; the proof is then recorded with it in `index`, so
    /// that a later proof may use the theorem. Tags are gathered first, then every text and step
    /// is checked in order.
    pub fn verify_structure(&self, index: &mut BuilderIndex) -> (r: Vec<ProofParsingError>)
        requires
            old(index).wf(),
            steps_displayable(self.elements@),
        ensures
            final(index).wf(),
            final(index).systems == old(index).systems,
            final(index).children == old(index).children,
            final(index).bib_refs == old(index).bib_refs,
            forall|s: Seq<char>, t: Seq<char>| #[trigger] final(index).first_proof(s, t) == (if s == self.system_id@ && t
                == self.theorem_id@ && old(index).first_proof(s, t) is None && (old(index).child(s, t) matches Some(
                c) && c.kind == SystemChildKind::Theorem) {
                Some(self.serial)
            } else {
                old(index).first_proof(s, t)
            }),
            r@ == proof_check(*self, *old(index), *final(index)),
    {
        let theorem = index.search_system_child(self.system_id.as_str(), self.theorem_id.as_str());
        let added = index.add_proof(self.system_id.as_str(), self.theorem_id.as_str(), self.serial);
        let premises = match added {
            Err(ProofIndexError::ParentNotFound) => {
                let mut errors = Vec::new();
                errors.push(ProofParsingError::ParentNotFound);
                return errors;
            },
            Err(ProofIndexError::ParentNotTheorem) => {
                let mut errors = Vec::new();
                errors.push(ProofParsingError::ParentNotTheorem);
                return errors;
            },
            Ok(()) => match theorem {
                Some(c) => c.premises,
                None => 0,
            },
        };
        let mut tags = TagIndex::new();
        let mut errors = self.build_tag_index(&mut tags);
        let ghost head = errors@;
        let mut i: usize = 0;
        while i < self.elements.len()
            invariant
                i <= self.elements@.len(),
                index.wf(),
                tags.wf(),
                steps_displayable(self.elements@),
                errors@ == head + proof_elements_errors(
                    self.elements@,
                    i as nat,
                    self.system_id@,
                    self.serial,
                    premises,
                    *index,
                    tags.tags.model(),
                ),
            decreases self.elements@.len() - i,
        {
            match &self.elements[i] {
                ProofBuilderElement::Text(t) => {
                    let (_, inner) = t.verify_structure_with_tags(index, &tags);
                    let mut j: usize = 0;
                    let ghost before = errors@;
                    while j < inner.len()
                        invariant
                            j <= inner@.len(),
                            errors@ == before + inner@.take(j as int).map_values(
                                |e: TextParsingError| ProofParsingError::TextError(i, e),
                            ),
                        decreases inner@.len() - j,
                    {
                        errors.push(ProofParsingError::TextError(i, inner[j]));
                        proof {
                            assert(inner@.take(j + 1) =~= inner@.take(j as int).push(inner@[j as int]));
                            assert(errors@ =~= before + inner@.take(j + 1).map_values(
                                |e: TextParsingError| ProofParsingError::TextError(i, e),
                            ));
                        }
                        j = j + 1;
                    }
                    proof {
                        assert(inner@.take(j as int) =~= inner@);
                    }
                },
                ProofBuilderElement::Step(s) => {
                    let inner = s.verify_structure(self.system_id.as_str(), self.serial, premises, index);
                    let mut j: usize = 0;
                    let ghost before = errors@;
                    while j < inner.len()
                        invariant
                            j <= inner@.len(),
                            errors@ == before + inner@.take(j as int).map_values(
                                |e: ProofStepParsingError| ProofParsingError::StepError(i, e),
                            ),
                        decreases inner@.len() - j,
                    {
                        errors.push(ProofParsingError::StepError(i, inner[j]));
                        proof {
                            assert(inner@.take(j + 1) =~= inner@.take(j as int).push(inner@[j as int]));
                            assert(errors@ =~= before + inner@.take(j + 1).map_values(
                                |e: ProofStepParsingError| ProofParsingError::StepError(i, e),
                            ));
                        }
                        j = j + 1;
                    }
                    proof {
                        assert(inner@.take(j as int) =~= inner@);
                    }
                },
            }
            proof {
                assert(errors@ =~= head + proof_elements_errors(
                    self.elements@,
                    (i + 1) as nat,
                    self.system_id@,
                    self.serial,
                    premises,
                    *index,
                    tags.tags.model(),
                ));
            }
            i = i + 1;
        }
        errors
    }
}

/// The property lists of the symbols and of the definitions of a document, each by position.
pub struct PropertyTable {
    pub symbols: Vec<PropertyList>,
    pub definitions: Vec<PropertyList>,
}

/// A property that a statement claims: one of the flags, and for a function, the relation.
#[derive(Clone, Copy, PartialEq, Eq, Debug, Structural)]
pub enum Claim {
    Reflexive,
    Symmetric,
    Transitive,
    Function(ReadableBuilder),
}

/// Recording a property of `readable` claimed by `deductable`: where the property was claimed
/// before, nothing changes and the error is returned.
pub open spec fn claim_property(
    table: Map<ReadableBuilder, PropertyModel>,
    readable: ReadableBuilder,
    claim: Claim,
    deductable: DeductableBuilder,
) -> (Map<ReadableBuilder, PropertyModel>, Option<(ReadableBuilder, ReadableParsingError)>) {
    let m = table[readable];
    match claim {
        Claim::Reflexive => if m.reflexive is Some {
            (table, Some((readable, ReadableParsingError::DuplicateReflexive(deductable))))
        } else {
            (table.insert(readable, PropertyModel { reflexive: Some(deductable), ..m }), None)
        },
        Claim::Symmetric => if m.symmetric is Some {
            (table, Some((readable, ReadableParsingError::DuplicateSymmetric(deductable))))
        } else {
            (table.insert(readable, PropertyModel { symmetric: Some(deductable), ..m }), None)
        },
        Claim::Transitive => if m.transitive is Some {
            (table, Some((readable, ReadableParsingError::DuplicateTransitive(deductable))))
        } else {
            (table.insert(readable, PropertyModel { transitive: Some(deductable), ..m }), None)
        },
        Claim::Function(relation) => if first_binding(m.function, relation) is Some {
            (table, Some((readable, ReadableParsingError::DuplicateFunction(relation, deductable))))
        } else {
            (table.insert(readable, PropertyModel { function: m.function.push((relation, deductable)), ..m }), None)
        },
    }
}

impl PropertyTable {
    pub open spec fn has(&self, readable: ReadableBuilder) -> bool {
        match readable {
            ReadableBuilder::Symbol(s) => s.0 < self.symbols@.len(),
            ReadableBuilder::Definition(d) => d.0 < self.definitions@.len(),
        }
    }

    pub open spec fn list(&self, readable: ReadableBuilder) -> PropertyList {
        match readable {
            ReadableBuilder::Symbol(s) => self.symbols@[s.0 as int],
            ReadableBuilder::Definition(d) => self.definitions@[d.0 as int],
        }
    }

    /// The properties of every symbol and definition of the table.
    pub open spec fn model(&self) -> Map<ReadableBuilder, PropertyModel> {
        Map::new(|r: ReadableBuilder| self.has(r), |r: ReadableBuilder| self.list(r).model())
    }

    /// A table of `symbols` symbols and `definitions` definitions, none with a property.
    pub fn new(symbols: usize, definitions: usize) -> (r: PropertyTable)
        ensures
            r.symbols@.len() == symbols,
            r.definitions@.len() == definitions,
            forall|x: ReadableBuilder| #[trigger] r.has(x) ==> r.model()[x] == PropertyList::new_model(),
    {
        let mut s: Vec<PropertyList> = Vec::new();
        let mut i: usize = 0;
        while i < symbols
            invariant
                i <= symbols,
                s@.len() == i,
                forall|j: int| 0 <= j < i ==> (#[trigger] s@[j]).model() == PropertyList::new_model(),
            decreases symbols - i,
        {
            s.push(PropertyList::new());
            proof {
                assert(s@[i as int].function@ =~= Seq::<(ReadableBuilder, DeductableBuilder)>::empty());
            }
            i = i + 1;
        }
        let mut d: Vec<PropertyList> = Vec::new();
        let mut k: usize = 0;
        while k < definitions
            invariant
                k <= definitions,
                d@.len() == k,
                forall|j: int| 0 <= j < k ==> (#[trigger] d@[j]).model() == PropertyList::new_model(),
            decreases definitions - k,
        {
            d.push(PropertyList::new());
            proof {
                assert(d@[k as int].function@ =~= Seq::<(ReadableBuilder, DeductableBuilder)>::empty());
            }
            k = k + 1;
        }
        PropertyTable { symbols: s, definitions: d }
    }

    /// The property list of a symbol or definition.
    pub fn get(&self, readable: ReadableBuilder) -> (r: &PropertyList)
        requires
            self.has(readable),
        ensures
            *r == self.list(readable),
    {
        match readable {
            ReadableBuilder::Symbol(s) => &self.symbols[s.0],
            ReadableBuilder::Definition(d) => &self.definitions[d.0],
        }
    }

    fn replace(&mut self, readable: ReadableBuilder, list: PropertyList)
        requires
            old(self).has(readable),
        ensures
            final(self).model() == old(self).model().insert(readable, list.model()),
    {
        match readable {
            ReadableBuilder::Symbol(s) => self.symbols.set(s.0, list),
            ReadableBuilder::Definition(d) => self.definitions.set(d.0, list),
        }
        proof {
            assert(final(self).model() =~= old(self).model().insert(readable, list.model()));
        }
    }

    /// Records a property of `readable` claimed by `deductable` (see `claim_property`).
    pub fn claim(&mut self, readable: ReadableBuilder, claim: Claim, deductable: DeductableBuilder) -> (r: Option<
        (ReadableBuilder, ReadableParsingError),
    >)
        requires
            old(self).has(readable),
        ensures
            (final(self).model(), r) == claim_property(old(self).model(), readable, claim, deductable),
    {
        let mut list = self.get(readable).duplicate();
        let ghost before = list.model();
        assert(before == old(self).model()[readable]);
        let r = match claim {
            Claim::Reflexive => list.set_reflexive(readable, deductable),
            Claim::Symmetric => list.set_symmetric(readable, deductable),
            Claim::Transitive => list.set_transitive(readable, deductable),
            Claim::Function(relation) => list.set_function(readable, deductable, relation),
        };
        if r.is_some() {
            proof {
                assert(list.model() =~= before);
                assert(old(self).model().insert(readable, list.model()) =~= old(self).model());
            }
        }
        self.replace(readable, list);
        proof {
            let expected = claim_property(old(self).model(), readable, claim, deductable);
            assert(final(self).model() =~= expected.0);
        }
        r
    }
}

/// An error of the properties claimed by a statement: its shape does not fit a flag, or the
/// property was claimed before.
#[derive(Clone, Copy, PartialEq, Eq, Debug, Structural)]
pub enum FlagCheckingError {
    Flag(FlagListParsingError),
    Readable(ReadableBuilder, ReadableParsingError),
}

/// The error of claiming a property, as a list.
pub open spec fn claim_errors(e: Option<(ReadableBuilder, ReadableParsingError)>) -> Seq<FlagCheckingError> {
    match e {
        Some(p) => seq![FlagCheckingError::Readable(p.0, p.1)],
        None => seq![],
    }
}

/// What a reflexivity claim decides: the relation that is reflexive, or why the statement is not
/// `x R x` without premises.
pub open spec fn reflexivity_outcome(premise: Seq<DisplayFormulaBuilder>, assertion: DisplayFormulaBuilder) -> Result<
    ReadableBuilder,
    FlagListParsingError,
> {
    if premise.len() != 0 {
        Err(FlagListParsingError::ReflexivityPremiseNotEmpty)
    } else {
        match simple_binary_of(assertion.formula) {
            Some((f, left, right)) => if left != right {
                Err(FlagListParsingError::ReflexivityArgumentMismatch)
            } else {
                Ok(f)
            },
            None => Err(FlagListParsingError::ReflexivityAssertionNotBinary),
        }
    }
}

/// What a symmetry claim decides: the error, if any, and the relation that is symmetric, if the
/// statement is `x R y` to `y R x`. Swapped sides are an error that still records the property.
pub open spec fn symmetry_outcome(premise: Seq<DisplayFormulaBuilder>, assertion: DisplayFormulaBuilder) -> (
    Option<FlagListParsingError>,
    Option<ReadableBuilder>,
) {
    if premise.len() != 1 {
        (Some(FlagListParsingError::SymmetryPremiseWrongLength), None)
    } else {
        match simple_binary_of(premise[0].formula) {
            None => (Some(FlagListParsingError::SymmetryPremiseNotBinary), None),
            Some((pf, pl, pr)) => match simple_binary_of(assertion.formula) {
                None => (Some(FlagListParsingError::SymmetryAssertionNotBinary), None),
                Some((af, al, ar)) => if pf != af {
                    (Some(FlagListParsingError::SymmetrySymbolMismatch), None)
                } else if pl != ar || pr != al {
                    (Some(FlagListParsingError::SymmetryArgumentMismatch), Some(af))
                } else {
                    (None, Some(af))
                },
            },
        }
    }
}

/// What a transitivity claim decides: the relation that is transitive, or why the statement is
/// not `x R y`, `y R z` to `x R z`.
pub open spec fn transitivity_outcome(premise: Seq<DisplayFormulaBuilder>, assertion: DisplayFormulaBuilder) -> Result<
    ReadableBuilder,
    FlagListParsingError,
> {
    if premise.len() != 2 {
        Err(FlagListParsingError::TransitivityWrongPremiseLength)
    } else {
        match simple_binary_of(premise[0].formula) {
            None => Err(FlagListParsingError::TransitivityFirstPremiseNotBinary),
            Some((f1, l1, r1)) => match simple_binary_of(premise[1].formula) {
                None => Err(FlagListParsingError::TransitivitySecondPremiseNotBinary),
                Some((f2, l2, r2)) => if f1 != f2 {
                    Err(FlagListParsingError::TransitivityPremiseSymbolNotEqual)
                } else if r1 != l2 {
                    Err(FlagListParsingError::TransitivityPremiseArgumentMismatch)
                } else {
                    match simple_binary_of(assertion.formula) {
                        None => Err(FlagListParsingError::TransitivityAssertionNotBinary),
                        Some((af, al, ar)) => if af != f1 {
                            Err(FlagListParsingError::TransitivityAssertionSymbolNotEqual)
                        } else if al != l1 {
                            Err(FlagListParsingError::TransitivityAssertionLeftMismatch)
                        } else if ar != r2 {
                            Err(FlagListParsingError::TransitivityAssertionRightMismatch)
                        } else {
                            Ok(af)
                        },
                    }
                },
            },
        }
    }
}

/// The first error among the first `n` premises of a function claim: the inputs on both sides
/// must be variables, and each premise must relate the two inputs at its position by the
/// relation.
pub open spec fn function_premises_error(
    premise: Seq<DisplayFormulaBuilder>,
    left: Seq<FormulaBuilder>,
    right: Seq<FormulaBuilder>,
    relation: ReadableBuilder,
    n: nat,
) -> Option<FlagListParsingError>
    decreases n,
{
    if n == 0 {
        None
    } else {
        match function_premises_error(premise, left, right, relation, (n - 1) as nat) {
            Some(e) => Some(e),
            None => {
                let i = n - 1;
                match (left[i], right[i]) {
                    (FormulaBuilder::Variable(lv), FormulaBuilder::Variable(rv)) => match simple_binary_of(
                        premise[i].formula,
                    ) {
                        None => Some(FlagListParsingError::FunctionHypothesisNotBinary(i as usize)),
                        Some((hr, hl, hrr)) => if hr != relation {
                            Some(FlagListParsingError::FunctionHypothesisRelationMismatch(i as usize))
                        } else if hl != lv {
                            Some(FlagListParsingError::FunctionHypothesisLeftVarMismatch(i as usize))
                        } else if hrr != rv {
                            Some(FlagListParsingError::FunctionHypothesisRightVarMismatch(i as usize))
                        } else {
                            None
                        },
                    },
                    _ => Some(FlagListParsingError::FunctionAssertionInputNotVariable(i as usize)),
                }
            },
        }
    }
}

/// Whether checking the first `n` premises of a function claim reads only binary premises where
/// it reads them.
pub open spec fn function_premises_defined(
    premise: Seq<DisplayFormulaBuilder>,
    left: Seq<FormulaBuilder>,
    right: Seq<FormulaBuilder>,
    relation: ReadableBuilder,
    n: nat,
) -> bool
    decreases n,
{
    if n == 0 {
        true
    } else {
        function_premises_defined(premise, left, right, relation, (n - 1) as nat) && (function_premises_error(
            premise,
            left,
            right,
            relation,
            (n - 1) as nat,
        ) is None && left[n - 1] is Variable && right[n - 1] is Variable ==> premise[n - 1].formula is Infix)
    }
}

/// What a function claim decides: the function and the relation it preserves, or why the
/// statement is not `x1 R y1, ..., xn R yn` to `f(x1, ..., xn) R f(y1, ..., yn)` for a preorder
/// `R`.
pub open spec fn function_outcome(
    premise: Seq<DisplayFormulaBuilder>,
    assertion: DisplayFormulaBuilder,
    table: Map<ReadableBuilder, PropertyModel>,
) -> Result<(ReadableBuilder, ReadableBuilder), FlagListParsingError> {
    if premise.len() == 0 {
        Err(FlagListParsingError::FunctionPremiseEmpty)
    } else {
        match assertion.formula {
            FormulaBuilder::Infix(relation, lhs, rhs) => {
                let m = table[relation];
                if !(m.reflexive is Some && m.transitive is Some) {
                    Err(FlagListParsingError::FunctionRelationNotPreorder)
                } else if application_operator(*lhs) != application_operator(*rhs) {
                    Err(FlagListParsingError::FunctionAssertionSymbolMismatch)
                } else if application_inputs(*lhs).len() != application_inputs(*rhs).len() {
                    Err(FlagListParsingError::FunctionAssertionArityMismatch)
                } else if premise.len() != application_inputs(*lhs).len() {
                    Err(FlagListParsingError::FunctionPremiseArityMismatch)
                } else {
                    match function_premises_error(
                        premise,
                        application_inputs(*lhs),
                        application_inputs(*rhs),
                        relation,
                        premise.len(),
                    ) {
                        Some(e) => Err(e),
                        None => Ok((application_operator(*lhs), relation)),
                    }
                }
            },
            _ => Err(FlagListParsingError::FunctionAssertionNotBinary),
        }
    }
}

/// Whether a function claim can be checked: the assertion is binary, its relation is known, and
/// its sides are applications, where the check reads them.
pub open spec fn function_defined(
    premise: Seq<DisplayFormulaBuilder>,
    assertion: DisplayFormulaBuilder,
    table: Map<ReadableBuilder, PropertyModel>,
) -> bool {
    &&& function_outcome(premise, assertion, table) matches Ok(p) ==> table.dom().contains(p.0)
    &&& premise.len() != 0 ==> match assertion.formula {
        FormulaBuilder::Infix(relation, lhs, rhs) => {
            &&& table.dom().contains(relation)
            &&& (table[relation].reflexive is Some && table[relation].transitive is Some) ==> {
                &&& (*lhs is Prefix || *lhs is Infix)
                &&& (*rhs is Prefix || *rhs is Infix)
                &&& (application_operator(*lhs) == application_operator(*rhs) && application_inputs(*lhs).len()
                    == application_inputs(*rhs).len() && premise.len() == application_inputs(*lhs).len())
                    ==> function_premises_defined(
                    premise,
                    application_inputs(*lhs),
                    application_inputs(*rhs),
                    relation,
                    premise.len(),
                )
            }
        },
        _ => false,
    }
}

/// Whether a transitivity claim with two premises reads only binary formulas where it reads
/// them.
pub open spec fn transitivity_defined(premise: Seq<DisplayFormulaBuilder>, assertion: DisplayFormulaBuilder) -> bool {
    premise[0].formula is Infix && match simple_binary_of(premise[0].formula) {
        None => true,
        Some((f1, l1, r1)) => premise[1].formula is Infix && match simple_binary_of(premise[1].formula) {
            None => true,
            Some((f2, l2, r2)) => (f1 == f2 && r1 == l2) ==> assertion.formula is Infix,
        },
    }
}

/// Whether a reflexivity claim can be checked: without premises the assertion is binary, and
/// the relation it names is known.
pub open spec fn reflexivity_defined(
    premise: Seq<DisplayFormulaBuilder>,
    assertion: DisplayFormulaBuilder,
    table: Map<ReadableBuilder, PropertyModel>,
) -> bool {
    &&& premise.len() == 0 ==> assertion.formula is Infix
    &&& reflexivity_outcome(premise, assertion) matches Ok(f) ==> table.dom().contains(f)
}

/// Whether a symmetry claim can be checked: the formulas it reads are binary, and the relation it
/// names is known.
pub open spec fn symmetry_defined(
    premise: Seq<DisplayFormulaBuilder>,
    assertion: DisplayFormulaBuilder,
    table: Map<ReadableBuilder, PropertyModel>,
) -> bool {
    &&& premise.len() == 1 ==> premise[0].formula is Infix && (simple_binary_of(premise[0].formula) is Some
        ==> assertion.formula is Infix)
    &&& symmetry_outcome(premise, assertion).1 matches Some(f) ==> table.dom().contains(f)
}

/// Whether a transitivity claim can be checked: the formulas it reads are binary, and the
/// relation it names is known.
pub open spec fn transitivity_claim_defined(
    premise: Seq<DisplayFormulaBuilder>,
    assertion: DisplayFormulaBuilder,
    table: Map<ReadableBuilder, PropertyModel>,
) -> bool {
    &&& premise.len() == 2 ==> transitivity_defined(premise, assertion)
    &&& transitivity_outcome(premise, assertion) matches Ok(f) ==> table.dom().contains(f)
}

/// Checking the reflexivity claim of `deductable`: the table after it, and its errors.
pub open spec fn reflexivity_step(
    premise: Seq<DisplayFormulaBuilder>,
    assertion: DisplayFormulaBuilder,
    deductable: DeductableBuilder,
    table: Map<ReadableBuilder, PropertyModel>,
) -> (Map<ReadableBuilder, PropertyModel>, Seq<FlagCheckingError>) {
    match reflexivity_outcome(premise, assertion) {
        Err(e) => (table, seq![FlagCheckingError::Flag(e)]),
        Ok(f) => {
            let c = claim_property(table, f, Claim::Reflexive, deductable);
            (c.0, claim_errors(c.1))
        },
    }
}

/// Checking the symmetry claim of `deductable`: the table after it, and its errors.
pub open spec fn symmetry_step(
    premise: Seq<DisplayFormulaBuilder>,
    assertion: DisplayFormulaBuilder,
    deductable: DeductableBuilder,
    table: Map<ReadableBuilder, PropertyModel>,
) -> (Map<ReadableBuilder, PropertyModel>, Seq<FlagCheckingError>) {
    let outcome = symmetry_outcome(premise, assertion);
    let first = match outcome.0 {
        Some(e) => seq![FlagCheckingError::Flag(e)],
        None => seq![],
    };
    match outcome.1 {
        None => (table, first),
        Some(f) => {
            let c = claim_property(table, f, Claim::Symmetric, deductable);
            (c.0, first + claim_errors(c.1))
        },
    }
}

/// Checking the transitivity claim of `deductable`: the table after it, and its errors.
pub open spec fn transitivity_step(
    premise: Seq<DisplayFormulaBuilder>,
    assertion: DisplayFormulaBuilder,
    deductable: DeductableBuilder,
    table: Map<ReadableBuilder, PropertyModel>,
) -> (Map<ReadableBuilder, PropertyModel>, Seq<FlagCheckingError>) {
    match transitivity_outcome(premise, assertion) {
        Err(e) => (table, seq![FlagCheckingError::Flag(e)]),
        Ok(f) => {
            let c = claim_property(table, f, Claim::Transitive, deductable);
            (c.0, claim_errors(c.1))
        },
    }
}

/// Checking the function claim of `deductable`: the table after it, and its errors.
pub open spec fn function_step(
    premise: Seq<DisplayFormulaBuilder>,
    assertion: DisplayFormulaBuilder,
    deductable: DeductableBuilder,
    table: Map<ReadableBuilder, PropertyModel>,
) -> (Map<ReadableBuilder, PropertyModel>, Seq<FlagCheckingError>) {
    match function_outcome(premise, assertion, table) {
        Err(e) => (table, seq![FlagCheckingError::Flag(e)]),
        Ok((f, relation)) => {
            let c = claim_property(table, f, Claim::Function(relation), deductable);
            (c.0, claim_errors(c.1))
        },
    }
}

fn push_claim_error(errors: &mut Vec<FlagCheckingError>, e: Option<(ReadableBuilder, ReadableParsingError)>)
    ensures
        final(errors)@ == old(errors)@ + claim_errors(e),
{
    match e {
        Some(p) => errors.push(FlagCheckingError::Readable(p.0, p.1)),
        None => {
            assert(errors@ =~= errors@ + claim_errors(e));
        },
    }
}

impl FlagList {
    /// Whether the list holds a flag.
    pub fn has_flag(&self, flag: Flag) -> (r: bool)
        ensures
            r == self.raw_list@.contains(flag),
    {
        let mut i: usize = 0;
        while i < self.raw_list.len()
            invariant
                i <= self.raw_list@.len(),
                forall|j: int| 0 <= j < i ==> self.raw_list@[j] != flag,
            decreases self.raw_list@.len() - i,
        {
            if self.raw_list[i] == flag {
                return true;
            }
            i = i + 1;
        }
        false
    }

    /// Checks that `deductable` states that a relation is reflexive, and records it.
    pub fn verify_reflexivity(
        deductable: DeductableBuilder,
        premise: &Vec<DisplayFormulaBuilder>,
        assertion: &DisplayFormulaBuilder,
        table: &mut PropertyTable,
        errors: &mut Vec<FlagCheckingError>,
    )
        requires
            reflexivity_defined(premise@, *assertion, old(table).model()),
        ensures
            final(table).model() == reflexivity_step(premise@, *assertion, deductable, old(table).model()).0,
            final(errors)@ == old(errors)@ + reflexivity_step(premise@, *assertion, deductable, old(table).model()).1,
    {
        if premise.len() != 0 {
            errors.push(FlagCheckingError::Flag(FlagListParsingError::ReflexivityPremiseNotEmpty));
            return;
        }
        match assertion.formula.simple_binary() {
            Some((f, left, right)) => {
                if left != right {
                    errors.push(FlagCheckingError::Flag(FlagListParsingError::ReflexivityArgumentMismatch));
                } else {
                    let e = table.claim(f, Claim::Reflexive, deductable);
                    push_claim_error(errors, e);
                }
            },
            None => errors.push(FlagCheckingError::Flag(FlagListParsingError::ReflexivityAssertionNotBinary)),
        }
    }

    /// Checks that `deductable` states that a relation is symmetric, and records it.
    pub fn verify_symmetry(
        deductable: DeductableBuilder,
        premise: &Vec<DisplayFormulaBuilder>,
        assertion: &DisplayFormulaBuilder,
        table: &mut PropertyTable,
        errors: &mut Vec<FlagCheckingError>,
    )
        requires
            symmetry_defined(premise@, *assertion, old(table).model()),
        ensures
            final(table).model() == symmetry_step(premise@, *assertion, deductable, old(table).model()).0,
            final(errors)@ == old(errors)@ + symmetry_step(premise@, *assertion, deductable, old(table).model()).1,
    {
        if premise.len() != 1 {
            errors.push(FlagCheckingError::Flag(FlagListParsingError::SymmetryPremiseWrongLength));
            return;
        }
        let (pf, pl, pr) = match premise[0].formula.simple_binary() {
            Some(t) => t,
            None => {
                errors.push(FlagCheckingError::Flag(FlagListParsingError::SymmetryPremiseNotBinary));
                return;
            },
        };
        let (af, al, ar) = match assertion.formula.simple_binary() {
            Some(t) => t,
            None => {
                errors.push(FlagCheckingError::Flag(FlagListParsingError::SymmetryAssertionNotBinary));
                return;
            },
        };
        if pf != af {
            errors.push(FlagCheckingError::Flag(FlagListParsingError::SymmetrySymbolMismatch));
            return;
        }
        if pl != ar || pr != al {
            errors.push(FlagCheckingError::Flag(FlagListParsingError::SymmetryArgumentMismatch));
        }
        let ghost before = errors@;
        let e = table.claim(af, Claim::Symmetric, deductable);
        push_claim_error(errors, e);
        proof {
            let step = symmetry_step(premise@, *assertion, deductable, old(table).model());
            assert(errors@ =~= old(errors)@ + step.1);
        }
    }

    /// Checks that `deductable` states that a relation is transitive, and records it.
    pub fn verify_transitivity(
        deductable: DeductableBuilder,
        premise: &Vec<DisplayFormulaBuilder>,
        assertion: &DisplayFormulaBuilder,
        table: &mut PropertyTable,
        errors: &mut Vec<FlagCheckingError>,
    )
        requires
            transitivity_claim_defined(premise@, *assertion, old(table).model()),
        ensures
            final(table).model() == transitivity_step(premise@, *assertion, deductable, old(table).model()).0,
            final(errors)@ == old(errors)@ + transitivity_step(premise@, *assertion, deductable, old(table).model()).1,
    {
        if premise.len() != 2 {
            errors.push(FlagCheckingError::Flag(FlagListParsingError::TransitivityWrongPremiseLength));
            return;
        }
        let (f1, l1, r1) = match premise[0].formula.simple_binary() {
            Some(t) => t,
            None => {
                errors.push(FlagCheckingError::Flag(FlagListParsingError::TransitivityFirstPremiseNotBinary));
                return;
            },
        };
        let (f2, l2, r2) = match premise[1].formula.simple_binary() {
            Some(t) => t,
            None => {
                errors.push(FlagCheckingError::Flag(FlagListParsingError::TransitivitySecondPremiseNotBinary));
                return;
            },
        };
        if f1 != f2 {
            errors.push(FlagCheckingError::Flag(FlagListParsingError::TransitivityPremiseSymbolNotEqual));
            return;
        }
        if r1 != l2 {
            errors.push(FlagCheckingError::Flag(FlagListParsingError::TransitivityPremiseArgumentMismatch));
            return;
        }
        let (af, al, ar) = match assertion.formula.simple_binary() {
            Some(t) => t,
            None => {
                errors.push(FlagCheckingError::Flag(FlagListParsingError::TransitivityAssertionNotBinary));
                return;
            },
        };
        if af != f1 {
            errors.push(FlagCheckingError::Flag(FlagListParsingError::TransitivityAssertionSymbolNotEqual));
            return;
        }
        if al != l1 {
            errors.push(FlagCheckingError::Flag(FlagListParsingError::TransitivityAssertionLeftMismatch));
            return;
        }
        if ar != r2 {
            errors.push(FlagCheckingError::Flag(FlagListParsingError::TransitivityAssertionRightMismatch));
            return;
        }
        let e = table.claim(af, Claim::Transitive, deductable);
        push_claim_error(errors, e);
    }

    /// Checks that `deductable` states that an operator preserves a preorder, and records it.
    pub fn verify_function(
        deductable: DeductableBuilder,
        premise: &Vec<DisplayFormulaBuilder>,
        assertion: &DisplayFormulaBuilder,
        table: &mut PropertyTable,
        errors: &mut Vec<FlagCheckingError>,
    )
        requires
            function_defined(premise@, *assertion, old(table).model()),
        ensures
            final(table).model() == function_step(premise@, *assertion, deductable, old(table).model()).0,
            final(errors)@ == old(errors)@ + function_step(premise@, *assertion, deductable, old(table).model()).1,
    {
        if premise.len() == 0 {
            errors.push(FlagCheckingError::Flag(FlagListParsingError::FunctionPremiseEmpty));
            return;
        }
        let (relation, left, right) = match assertion.formula.binary() {
            Some(t) => t,
            None => {
                errors.push(FlagCheckingError::Flag(FlagListParsingError::FunctionAssertionNotBinary));
                return;
            },
        };
        proof {
            assert(old(table).model().dom().contains(relation));
        }
        if !table.get(relation).is_preorder() {
            errors.push(FlagCheckingError::Flag(FlagListParsingError::FunctionRelationNotPreorder));
            return;
        }
        let (left_function, left_inputs) = match left.application() {
            Some(t) => t,
            None => {
                errors.push(FlagCheckingError::Flag(FlagListParsingError::FunctionAssertionLeftNotApplication));
                return;
            },
        };
        let (right_function, right_inputs) = match right.application() {
            Some(t) => t,
            None => {
                errors.push(FlagCheckingError::Flag(FlagListParsingError::FunctionAssertionRightNotApplication));
                return;
            },
        };
        if left_function != right_function {
            errors.push(FlagCheckingError::Flag(FlagListParsingError::FunctionAssertionSymbolMismatch));
            return;
        }
        if left_inputs.len() != right_inputs.len() {
            errors.push(FlagCheckingError::Flag(FlagListParsingError::FunctionAssertionArityMismatch));
            return;
        }
        if premise.len() != left_inputs.len() {
            errors.push(FlagCheckingError::Flag(FlagListParsingError::FunctionPremiseArityMismatch));
            return;
        }
        let ghost lins = application_inputs(*left);
        let ghost rins = application_inputs(*right);
        let mut i: usize = 0;
        while i < premise.len()
            invariant
                errors@ == old(errors)@,
                *table == *old(table),
                function_defined(premise@, *assertion, old(table).model()),
                premise@.len() != 0,
                assertion.formula == FormulaBuilder::Infix(relation, Box::new(*left), Box::new(*right)),
                old(table).model()[relation].reflexive is Some,
                old(table).model()[relation].transitive is Some,
                left_function == application_operator(*left),
                right_function == application_operator(*right),
                left_function == right_function,
                lins == application_inputs(*left),
                rins == application_inputs(*right),
                i <= premise@.len(),
                premise@.len() == left_inputs@.len(),
                left_inputs@.len() == right_inputs@.len(),
                lins.len() == left_inputs@.len(),
                rins.len() == right_inputs@.len(),
                forall|j: int| 0 <= j < left_inputs@.len() ==> *left_inputs@[j] == lins[j],
                forall|j: int| 0 <= j < right_inputs@.len() ==> *right_inputs@[j] == rins[j],
                function_premises_defined(premise@, lins, rins, relation, premise@.len()),
                function_premises_error(premise@, lins, rins, relation, i as nat) is None,
            decreases premise@.len() - i,
        {
            proof {
                Self::lemma_premises_defined_prefix(premise@, lins, rins, relation, premise@.len(), (i + 1) as nat);
            }
            let lv = match left_inputs[i].variable() {
                Some(v) => v,
                None => {
                    errors.push(FlagCheckingError::Flag(FlagListParsingError::FunctionAssertionInputNotVariable(i)));
                    proof {
                        Self::lemma_premises_error_prefix(premise@, lins, rins, relation, (i + 1) as nat, premise@.len());
                    }
                    return;
                },
            };
            let rv = match right_inputs[i].variable() {
                Some(v) => v,
                None => {
                    errors.push(FlagCheckingError::Flag(FlagListParsingError::FunctionAssertionInputNotVariable(i)));
                    proof {
                        Self::lemma_premises_error_prefix(premise@, lins, rins, relation, (i + 1) as nat, premise@.len());
                    }
                    return;
                },
            };
            let (hr, hl, hrr) = match premise[i].formula.simple_binary() {
                Some(t) => t,
                None => {
                    errors.push(FlagCheckingError::Flag(FlagListParsingError::FunctionHypothesisNotBinary(i)));
                    proof {
                        Self::lemma_premises_error_prefix(premise@, lins, rins, relation, (i + 1) as nat, premise@.len());
                    }
                    return;
                },
            };
            if hr != relation {
                errors.push(FlagCheckingError::Flag(FlagListParsingError::FunctionHypothesisRelationMismatch(i)));
                proof {
                    Self::lemma_premises_error_prefix(premise@, lins, rins, relation, (i + 1) as nat, premise@.len());
                }
                return;
            }
            if hl != lv {
                errors.push(FlagCheckingError::Flag(FlagListParsingError::FunctionHypothesisLeftVarMismatch(i)));
                proof {
                    Self::lemma_premises_error_prefix(premise@, lins, rins, relation, (i + 1) as nat, premise@.len());
                }
                return;
            }
            if hrr != rv {
                errors.push(FlagCheckingError::Flag(FlagListParsingError::FunctionHypothesisRightVarMismatch(i)));
                proof {
                    Self::lemma_premises_error_prefix(premise@, lins, rins, relation, (i + 1) as nat, premise@.len());
                }
                return;
            }
            i = i + 1;
        }
        let e = table.claim(left_function, Claim::Function(relation), deductable);
        push_claim_error(errors, e);
    }

    proof fn lemma_premises_defined_prefix(
        premise: Seq<DisplayFormulaBuilder>,
        left: Seq<FormulaBuilder>,
        right: Seq<FormulaBuilder>,
        relation: ReadableBuilder,
        n: nat,
        m: nat,
    )
        requires
            m <= n,
            function_premises_defined(premise, left, right, relation, n),
        ensures
            function_premises_defined(premise, left, right, relation, m),
        decreases n,
    {
        if m < n {
            Self::lemma_premises_defined_prefix(premise, left, right, relation, (n - 1) as nat, m);
        }
    }

    proof fn lemma_premises_error_prefix(
        premise: Seq<DisplayFormulaBuilder>,
        left: Seq<FormulaBuilder>,
        right: Seq<FormulaBuilder>,
        relation: ReadableBuilder,
        m: nat,
        n: nat,
    )
        requires
            m <= n,
            function_premises_error(premise, left, right, relation, m) is Some,
        ensures
            function_premises_error(premise, left, right, relation, n) == function_premises_error(
                premise,
                left,
                right,
                relation,
                m,
            ),
        decreases n,
    {
        if m < n {
            Self::lemma_premises_error_prefix(premise, left, right, relation, m, (n - 1) as nat);
        }
    }
}

/// Checking the claims of a statement, in the order reflexivity, symmetry, transitivity,
/// function, each where it is claimed: the table after them, and their errors. A later claim sees
/// the properties that earlier ones recorded.
pub open spec fn claims_step(
    reflexive: bool,
    symmetric: bool,
    transitive: bool,
    function: bool,
    premise: Seq<DisplayFormulaBuilder>,
    assertion: DisplayFormulaBuilder,
    deductable: DeductableBuilder,
    table: Map<ReadableBuilder, PropertyModel>,
) -> (Map<ReadableBuilder, PropertyModel>, Seq<FlagCheckingError>) {
    let s1 = if reflexive {
        reflexivity_step(premise, assertion, deductable, table)
    } else {
        (table, seq![])
    };
    let s2 = if symmetric {
        let r = symmetry_step(premise, assertion, deductable, s1.0);
        (r.0, s1.1 + r.1)
    } else {
        s1
    };
    let s3 = if transitive {
        let r = transitivity_step(premise, assertion, deductable, s2.0);
        (r.0, s2.1 + r.1)
    } else {
        s2
    };
    if function {
        let r = function_step(premise, assertion, deductable, s3.0);
        (r.0, s3.1 + r.1)
    } else {
        s3
    }
}

/// Checking the claims that a list of flags makes of a statement (see `claims_step`).
pub open spec fn flags_step(
    flags: Seq<Flag>,
    premise: Seq<DisplayFormulaBuilder>,
    assertion: DisplayFormulaBuilder,
    deductable: DeductableBuilder,
    table: Map<ReadableBuilder, PropertyModel>,
) -> (Map<ReadableBuilder, PropertyModel>, Seq<FlagCheckingError>) {
    claims_step(
        flags.contains(Flag::Reflexive),
        flags.contains(Flag::Symmetric),
        flags.contains(Flag::Transitive),
        flags.contains(Flag::Function),
        premise,
        assertion,
        deductable,
        table,
    )
}

/// Whether the claims of a statement with the given flags can be checked; the function claim is
/// checked against the table that the other claims leave.
pub open spec fn flags_defined(
    flags: Seq<Flag>,
    premise: Seq<DisplayFormulaBuilder>,
    assertion: DisplayFormulaBuilder,
    deductable: DeductableBuilder,
    table: Map<ReadableBuilder, PropertyModel>,
) -> bool {
    &&& flags.contains(Flag::Reflexive) ==> reflexivity_defined(premise, assertion, table)
    &&& flags.contains(Flag::Symmetric) ==> symmetry_defined(premise, assertion, table)
    &&& flags.contains(Flag::Transitive) ==> transitivity_claim_defined(premise, assertion, table)
    &&& flags.contains(Flag::Function) ==> function_defined(
        premise,
        assertion,
        claims_step(
            flags.contains(Flag::Reflexive),
            flags.contains(Flag::Symmetric),
            flags.contains(Flag::Transitive),
            false,
            premise,
            assertion,
            deductable,
            table,
        ).0,
    )
}

proof fn lemma_claim_keeps_domain(
    table: Map<ReadableBuilder, PropertyModel>,
    readable: ReadableBuilder,
    claim: Claim,
    deductable: DeductableBuilder,
)
    requires
        table.dom().contains(readable),
    ensures
        claim_property(table, readable, claim, deductable).0.dom() == table.dom(),
{
    assert(claim_property(table, readable, claim, deductable).0.dom() =~= table.dom());
}

impl FlagList {
    /// Checks every claim that the flags make of a statement, in the order reflexivity, symmetry,
    /// transitivity, function, recording the properties in `table`.
    pub fn verify_formulas(
        &self,
        deductable: DeductableBuilder,
        premise: &Vec<DisplayFormulaBuilder>,
        assertion: &DisplayFormulaBuilder,
        table: &mut PropertyTable,
    ) -> (r: Vec<FlagCheckingError>)
        requires
            flags_defined(self.raw_list@, premise@, *assertion, deductable, old(table).model()),
        ensures
            final(table).model() == flags_step(self.raw_list@, premise@, *assertion, deductable, old(table).model()).0,
            r@ == flags_step(self.raw_list@, premise@, *assertion, deductable, old(table).model()).1,
    {
        let ghost flags = self.raw_list@;
        let ghost t0 = table.model();
        let mut errors: Vec<FlagCheckingError> = Vec::new();
        if self.has_flag(Flag::Reflexive) {
            Self::verify_reflexivity(deductable, premise, assertion, table, &mut errors);
            proof {
                if let Ok(f) = reflexivity_outcome(premise@, *assertion) {
                    lemma_claim_keeps_domain(t0, f, Claim::Reflexive, deductable);
                }
                assert(errors@ =~= reflexivity_step(premise@, *assertion, deductable, t0).1);
            }
        }
        let ghost t1 = table.model();
        assert(t1.dom() == t0.dom());
        if self.has_flag(Flag::Symmetric) {
            assert(symmetry_defined(premise@, *assertion, t1));
            Self::verify_symmetry(deductable, premise, assertion, table, &mut errors);
            proof {
                if let Some(f) = symmetry_outcome(premise@, *assertion).1 {
                    lemma_claim_keeps_domain(t1, f, Claim::Symmetric, deductable);
                }
            }
        }
        let ghost t2 = table.model();
        assert(t2.dom() == t0.dom());
        if self.has_flag(Flag::Transitive) {
            assert(transitivity_claim_defined(premise@, *assertion, t2));
            Self::verify_transitivity(deductable, premise, assertion, table, &mut errors);
            proof {
                if let Ok(f) = transitivity_outcome(premise@, *assertion) {
                    lemma_claim_keeps_domain(t2, f, Claim::Transitive, deductable);
                }
            }
        }
        if self.has_flag(Flag::Function) {
            Self::verify_function(deductable, premise, assertion, table, &mut errors);
        }
        errors
    }
}

impl SystemBuilderEntries {
    /// The texts of the description, none where there is none.
    pub fn description(&self) -> (r: &[TextBuilder])
        ensures
            r@ == description_of(self.descriptions@),
    {
        first_description(&self.descriptions)
    }
}

impl AxiomBuilderEntries {
    /// The texts of the description, none where there is none.
    pub fn description(&self) -> (r: &[TextBuilder])
        ensures
            r@ == description_of(self.descriptions@),
    {
        first_description(&self.descriptions)
    }
}

impl TheoremBuilderEntries {
    /// The texts of the description, none where there is none.
    pub fn description(&self) -> (r: &[TextBuilder])
        ensures
            r@ == description_of(self.descriptions@),
    {
        first_description(&self.descriptions)
    }
}

} // verus!
