use vstd::prelude::*;

use super::directory::ProofBuilderStepRef;
use super::directory::BibliographyBuilderRef;
use super::index::SystemChildIndexError;
use super::language::{DeductableBuilder, ReadableBuilder};

verus! {

/// An operator of a formula that was given the wrong number of inputs; the number it got.
#[derive(Clone, Copy, PartialEq, Eq, Debug, Structural)]
pub enum MathParsingError {
    SquareRootWrongInputArity(usize),
    PowerWrongInputArity(usize),
}

/// What is wrong with one element of a paragraph.
#[derive(Clone, Copy, PartialEq, Eq, Debug, Structural)]
pub enum ParagraphElementParsingError {
    SystemReferenceIdNotFound,
    SystemChildReferenceIdNotFound,
    TagReferenceNotFound,
    CitationKeyNotFound,

    UnexpectedUnicornVomitBegin,
    UnexpectedUnicornVomitEnd,
    UnexpectedEmBegin,
    UnexpectedEmEnd,

    MathError(MathParsingError),
    InvalidUrl,
}

/// What is wrong with a paragraph: one of its elements, by position, or a style left open.
#[derive(Clone, Copy, PartialEq, Eq, Debug, Structural)]
pub enum ParagraphParsingError {
    ElementError(usize, ParagraphElementParsingError),

    UnclosedUnicornVomit,
    UnclosedEm,
}

/// A field given twice in the container of a citation.
#[derive(Clone, Copy, PartialEq, Eq, Debug, Structural)]
pub enum RawCitationContainerParsingError {
    DuplicateTitle,
    DuplicateOtherContributors,
    DuplicateVersion,
    DuplicateNumber,
    DuplicatePublisher,
    DuplicatePublicationDate,
    DuplicateLocation,
}

/// What is wrong with a citation written out in full; a container is named by its position.
#[derive(Clone, Copy, PartialEq, Eq, Debug, Structural)]
pub enum RawCitationParsingError {
    MissingTitle,
    DuplicateAuthor,
    DuplicateTitle,

    ContainerError(usize, RawCitationContainerParsingError),
    InvalidUrl,
}

/// What is wrong with a block of text.
#[derive(Clone, Copy, PartialEq, Eq, Debug, Structural)]
pub enum TextParsingError {
    ParagraphError(ParagraphParsingError),
    RawCitationError(RawCitationParsingError),
    SublistError(MathParsingError),
    DisplayMathError(MathParsingError),
}

#[derive(Clone, Copy, PartialEq, Eq, Debug, Structural)]
pub enum BookParsingError {
    TaglineError(ParagraphParsingError),
}

#[derive(Clone, Copy, PartialEq, Eq, Debug, Structural)]
pub enum ChapterParsingError {
    TaglineError(ParagraphParsingError),
}

#[derive(Clone, Copy, PartialEq, Eq, Debug, Structural)]
pub enum FormulaParsingError {
    VariableIdNotFound,
    OperatorNotFound,
}

/// What is wrong with an entry of the bibliography: its key is taken by an earlier entry, or its
/// citation is wrong.
#[derive(Clone, Copy, PartialEq, Eq, Debug, Structural)]
pub enum BibliographyParsingError {
    KeyAlreadyTaken(BibliographyBuilderRef),
    RawCitationError(RawCitationParsingError),
}

/// What is wrong with a table: a cell, by the position of its row among all rows of the table,
/// head, body and foot in turn, and its position in the row; or the caption.
#[derive(Clone, Copy, PartialEq, Eq, Debug, Structural)]
pub enum TableParsingError {
    CellError(usize, usize, ParagraphParsingError),
    CaptionError(ParagraphParsingError),
}

#[derive(Clone, Copy, PartialEq, Eq, Debug, Structural)]
pub enum QuoteValueParsingError {
    BibKeyNotFound,
}

#[derive(Clone, Copy, PartialEq, Eq, Debug, Structural)]
pub enum QuoteParsingError {
    OriginalError(QuoteValueParsingError),
    ValueError(QuoteValueParsingError),
}

/// What is wrong with a type named in a signature: no child of the system has the name, the child
/// that has it is no type, or the type comes after the block that names it.
#[derive(Clone, Copy, PartialEq, Eq, Debug, Structural)]
pub enum TypeSignatureParsingError {
    TypeIdNotFound,
    SystemChildWrongKind,
    ForwardReference,
}

#[derive(Clone, Copy, PartialEq, Eq, Debug, Structural)]
pub enum VariableParsingError {
    TypeSignatureError(TypeSignatureParsingError),
}

/// A property that a block may claim of itself.
#[derive(Clone, Copy, PartialEq, Eq, Debug, Structural)]
pub enum Flag {
    Reflexive,
    Symmetric,
    Transitive,

    Function,
}

/// What is wrong with a flag list, or with the statement that claims a flag: it must have the
/// shape of the property it claims. A premise or an input is named by its position.
#[derive(Clone, Copy, PartialEq, Eq, Debug, Structural)]
pub enum FlagListParsingError {
    DuplicateFlag(Flag),

    ReflexivityPremiseNotEmpty,
    ReflexivityAssertionNotBinary,
    ReflexivityArgumentMismatch,

    SymmetryPremiseWrongLength,
    SymmetryPremiseNotBinary,
    SymmetryAssertionNotBinary,
    SymmetrySymbolMismatch,
    SymmetryArgumentMismatch,

    TransitivityWrongPremiseLength,
    TransitivityFirstPremiseNotBinary,
    TransitivitySecondPremiseNotBinary,
    TransitivityPremiseSymbolNotEqual,
    TransitivityPremiseArgumentMismatch,
    TransitivityAssertionNotBinary,
    TransitivityAssertionSymbolNotEqual,
    TransitivityAssertionLeftMismatch,
    TransitivityAssertionRightMismatch,

    FunctionPremiseEmpty,
    FunctionPremiseNotBinary(usize),
    FunctionPremiseArityMismatch,
    FunctionHypothesisNotBinary(usize),
    FunctionHypothesisRelationMismatch(usize),
    FunctionHypothesisLeftVarMismatch(usize),
    FunctionHypothesisRightVarMismatch(usize),
    FunctionAssertionNotBinary,
    FunctionAssertionLeftNotApplication,
    FunctionAssertionRightNotApplication,
    FunctionAssertionSymbolMismatch,
    FunctionAssertionArityMismatch,
    FunctionAssertionInputNotVariable(usize),
    FunctionRelationNotPreorder,
}

/// What is wrong with a symbol or definition: its operator is read the same way, with inputs of
/// the same types, as that of another; or a property is claimed of it twice, by the statement
/// that claimed it again.
#[derive(Clone, Copy, PartialEq, Eq, Debug, Structural)]
pub enum ReadableParsingError {
    IdAlreadyTaken(ReadableBuilder),
    DuplicateReflexive(DeductableBuilder),
    DuplicateSymmetric(DeductableBuilder),
    DuplicateTransitive(DeductableBuilder),
    DuplicateFunction(ReadableBuilder, DeductableBuilder),
}

/// What is wrong with the entries of a system; a text of its description is named by position.
#[derive(Clone, Copy, PartialEq, Eq, Debug, Structural)]
pub enum SystemParsingError {
    IdAlreadyTaken(usize),

    MissingName,
    MissingTagline,
    DuplicateName,
    DuplicateTagline,
    DuplicateDescription,

    TaglineParsingError(ParagraphParsingError),
    DescriptionParsingError(usize, TextParsingError),
}

/// What is wrong with the entries of a type.
#[derive(Clone, Copy, PartialEq, Eq, Debug, Structural)]
pub enum TypeParsingError {
    MissingName,
    MissingTagline,
    DuplicateName,
    DuplicateTagline,
    DuplicateDescription,

    TaglineParsingError(ParagraphParsingError),
    DescriptionParsingError(usize, TextParsingError),
}

/// What is wrong with the entries of a symbol.
#[derive(Clone, Copy, PartialEq, Eq, Debug, Structural)]
pub enum SymbolParsingError {
    MissingName,
    MissingTagline,
    MissingTypeSignature,
    DuplicateName,
    DuplicateTagline,
    DuplicateDescription,
    DuplicateTypeSignature,
    DuplicateReads,
    DuplicateDisplays,

    TaglineParsingError(ParagraphParsingError),
    DescriptionParsingError(usize, TextParsingError),
    TypeSignatureError(TypeSignatureParsingError),
}

/// What is wrong with the entries of a definition; a variable is named by position.
#[derive(Clone, Copy, PartialEq, Eq, Debug, Structural)]
pub enum DefinitionParsingError {
    MissingName,
    MissingTagline,
    DuplicateName,
    DuplicateTagline,
    DuplicateDescription,
    DuplicateInputs,
    DuplicateReads,
    DuplicateDisplays,
    MissingExpansion,
    DuplicateExpansion,

    TaglineParsingError(ParagraphParsingError),
    DescriptionParsingError(usize, TextParsingError),

    VariableError(usize, VariableParsingError),
}

/// What is wrong with the entries of an axiom.
#[derive(Clone, Copy, PartialEq, Eq, Debug, Structural)]
pub enum AxiomParsingError {
    MissingName,
    MissingTagline,
    MissingAssertion,
    DuplicateName,
    DuplicateTagline,
    DuplicateDescription,
    DuplicateFlagList,
    DuplicatePremise,
    DuplicateAssertion,

    TaglineParsingError(ParagraphParsingError),
    DescriptionParsingError(usize, TextParsingError),
    FlagListError(FlagListParsingError),

    VariableError(usize, VariableParsingError),
}

/// What is wrong with the entries of a theorem.
#[derive(Clone, Copy, PartialEq, Eq, Debug, Structural)]
pub enum TheoremParsingError {
    MissingName,
    MissingTagline,
    MissingAssertion,
    DuplicateName,
    DuplicateTagline,
    DuplicateDescription,
    DuplicateFlagList,
    DuplicatePremise,
    DuplicateAssertion,

    TaglineParsingError(ParagraphParsingError),
    DescriptionParsingError(usize, TextParsingError),
    FlagListError(FlagListParsingError),

    VariableError(usize, VariableParsingError),
}

/// What is wrong with a step of a proof.
#[derive(Clone, Copy, PartialEq, Eq, Debug, Structural)]
pub enum ProofStepParsingError {
    TagAlreadyTaken(ProofBuilderStepRef),

    MissingJustification,
    DuplicateTags,
    DuplicateJustification,

    SystemChildJustificationNotFound,
    SystemChildJustificationWrongKind,

    TheoremJustificationUnproven,
    TheoremJustificationUsedBeforeProof,
    TheoremJustificationCircularProof,

    HypothesisZeroIndex,
    HypothesisIndexOutOfRange,
}

/// What is wrong with a proof; a text or a step is named by its position among the elements.
#[derive(Clone, Copy, PartialEq, Eq, Debug, Structural)]
pub enum ProofParsingError {
    ParentNotFound,
    ParentNotTheorem,

    TextError(usize, TextParsingError),
    StepError(usize, ProofStepParsingError),
}

/// An error of a document, with the block, entry, book or chapter it belongs to: a block by its
/// serial number, an entry of the bibliography, a book or a chapter by its position. A link with
/// an invalid address in a heading is named by the positions of its heading and of the link; a
/// text of a note by its position in the note.
#[derive(Clone, Copy, PartialEq, Eq, Debug, Structural)]
pub enum ParsingError {
    UrlError(usize, usize),

    BookError(usize, BookParsingError),
    ChapterError(usize, ChapterParsingError),
    BibliographyError(usize, BibliographyParsingError),

    SystemError(usize, SystemParsingError),
    SystemChildError(usize, SystemChildIndexError),
    ReadableError(ReadableBuilder, ReadableParsingError),

    TypeError(usize, TypeParsingError),
    SymbolError(usize, SymbolParsingError),
    DefinitionError(usize, DefinitionParsingError),
    AxiomError(usize, AxiomParsingError),
    TheoremError(usize, TheoremParsingError),
    ProofError(usize, ProofParsingError),

    ListItemError(usize, usize, ParagraphParsingError),
    TableError(usize, TableParsingError),
    QuoteError(usize, QuoteParsingError),
    TextError(usize, TextParsingError),
    TodoError(usize, TextParsingError),
}

/// The errors found so far.
pub struct ParsingErrorContext {
    pub errors: Vec<ParsingError>,
}

impl ParsingErrorContext {
    pub fn new() -> (r: ParsingErrorContext)
        ensures
            r.errors@.len() == 0,
    {
        ParsingErrorContext { errors: Vec::new() }
    }

    pub fn err(&mut self, e: ParsingError)
        ensures
            final(self).errors@ == old(self).errors@.push(e),
    {
        self.errors.push(e);
    }

    pub fn error_found(&self) -> (r: bool)
        ensures
            r == (self.errors@.len() > 0),
    {
        self.errors.len() > 0
    }
}

} // verus!
