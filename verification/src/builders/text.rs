use vstd::prelude::*;

use super::directory::{BibliographyBuilderRef, ProofBuilderStepRef, TagIndex};
use super::errors::{
    MathParsingError, ParagraphElementParsingError, ParagraphParsingError, RawCitationContainerParsingError,
    RawCitationParsingError, TextParsingError,
};
use super::index::BuilderIndex;
use crate::deduction::errors::append_mapped;
use crate::document::text::{BareElement, BareText, DisplayMathBlock, MathBlock, MathElement, Sublist, SublistItem};

verus! {

/// An operator written with its inputs as separate rows: a square root or a power.
#[derive(Clone, Copy, PartialEq, Eq, Debug, Structural)]
pub enum BigOperatorKind {
    SquareRoot,
    Power,
}

/// The number of inputs that an operator takes.
pub open spec fn big_operator_arity(kind: BigOperatorKind) -> nat {
    match kind {
        BigOperatorKind::SquareRoot => 1,
        BigOperatorKind::Power => 2,
    }
}

/// The error for an operator that was given `n` inputs.
pub open spec fn wrong_arity(kind: BigOperatorKind, n: nat) -> MathParsingError {
    match kind {
        BigOperatorKind::SquareRoot => MathParsingError::SquareRootWrongInputArity(n as usize),
        BigOperatorKind::Power => MathParsingError::PowerWrongInputArity(n as usize),
    }
}

impl BigOperatorKind {
    pub fn arity(&self) -> (r: usize)
        ensures
            r == big_operator_arity(*self),
    {
        match self {
            BigOperatorKind::SquareRoot => 1,
            BigOperatorKind::Power => 2,
        }
    }
}

/// A piece of a formula as it is written: a parenthesised row, an operator with its input rows,
/// or a single sign.
pub enum MathBuilderElement {
    Fenced(MathBuilder),
    BigOperator(BigOperatorKind, Vec<MathBuilder>),
    Operator(String),
    Separator,
    Symbol(String),
    Variable(String),
    Number(String),
}

/// A formula as it is written: a row of pieces.
pub struct MathBuilder {
    pub elements: Vec<MathBuilderElement>,
}

/// The error of a piece, if any: the first that a depth-first walk meets, as the walk stops there.
pub open spec fn math_element_error(element: MathBuilderElement) -> Option<MathParsingError>
    decreases element, 2nat,
{
    match element {
        MathBuilderElement::Fenced(math) => math_error(math),
        MathBuilderElement::BigOperator(kind, inputs) => {
            proof {
                vstd::std_specs::vec::axiom_vec_decreases_to_view(inputs);
            }
            if inputs@.len() != big_operator_arity(kind) {
                Some(wrong_arity(kind, inputs@.len()))
            } else {
                maths_error(inputs@)
            }
        },
        _ => None,
    }
}

/// The first error among the pieces of a row, if any.
pub open spec fn math_elements_error(elements: Seq<MathBuilderElement>) -> Option<MathParsingError>
    decreases elements, 1nat,
{
    if elements.len() == 0 {
        None
    } else {
        match math_element_error(elements[0]) {
            Some(e) => Some(e),
            None => math_elements_error(elements.drop_first()),
        }
    }
}

/// The first error among a list of rows, if any.
pub open spec fn maths_error(maths: Seq<MathBuilder>) -> Option<MathParsingError>
    decreases maths, 1nat,
{
    if maths.len() == 0 {
        None
    } else {
        match math_error(maths[0]) {
            Some(e) => Some(e),
            None => maths_error(maths.drop_first()),
        }
    }
}

/// The error of a row, if any: every operator must get as many inputs as it takes.
pub open spec fn math_error(math: MathBuilder) -> Option<MathParsingError>
    decreases math, 3nat,
{
    proof {
        vstd::std_specs::vec::axiom_vec_decreases_to_view(math.elements);
    }
    math_elements_error(math.elements@)
}

proof fn lemma_math_elements_error_step(elements: Seq<MathBuilderElement>, i: int)
    requires
        0 <= i < elements.len(),
        math_elements_error(elements.take(i)) is None,
    ensures
        math_elements_error(elements.take(i + 1)) == math_element_error(elements[i]),
        math_element_error(elements[i]) is None ==> math_elements_error(elements.take(i + 1)) is None,
        math_element_error(elements[i]) is Some ==> math_elements_error(elements) == math_element_error(elements[i]),
    decreases i,
{
    if i == 0 {
        assert(elements.take(1).drop_first() =~= Seq::<MathBuilderElement>::empty());
        if elements.len() > 0 {
            reveal_with_fuel(math_elements_error, 2);
        }
    } else {
        assert(elements.take(i).drop_first() =~= elements.drop_first().take(i - 1));
        assert(elements.take(i + 1).drop_first() =~= elements.drop_first().take(i));
        assert(elements.take(i)[0] == elements[0]);
        assert(elements.take(i + 1)[0] == elements[0]);
        lemma_math_elements_error_step(elements.drop_first(), i - 1);
    }
}

proof fn lemma_maths_error_step(maths: Seq<MathBuilder>, i: int)
    requires
        0 <= i < maths.len(),
        maths_error(maths.take(i)) is None,
    ensures
        maths_error(maths.take(i + 1)) == math_error(maths[i]),
        math_error(maths[i]) is Some ==> maths_error(maths) == math_error(maths[i]),
    decreases i,
{
    if i == 0 {
        assert(maths.take(1).drop_first() =~= Seq::<MathBuilder>::empty());
        reveal_with_fuel(maths_error, 2);
    } else {
        assert(maths.take(i).drop_first() =~= maths.drop_first().take(i - 1));
        assert(maths.take(i + 1).drop_first() =~= maths.drop_first().take(i));
        assert(maths.take(i)[0] == maths[0]);
        assert(maths.take(i + 1)[0] == maths[0]);
        lemma_maths_error_step(maths.drop_first(), i - 1);
    }
}

impl MathBuilderElement {
    /// Checks that every operator in the piece gets as many inputs as it takes, stopping at the
    /// first that does not.
    pub fn verify_structure(&self) -> (r: Option<MathParsingError>)
        ensures
            r == math_element_error(*self),
        decreases self, 2nat,
    {
        match self {
            MathBuilderElement::Fenced(math) => math.verify_structure(),
            MathBuilderElement::BigOperator(kind, inputs) => {
                if inputs.len() != kind.arity() {
                    return match kind {
                        BigOperatorKind::SquareRoot => Some(MathParsingError::SquareRootWrongInputArity(inputs.len())),
                        BigOperatorKind::Power => Some(MathParsingError::PowerWrongInputArity(inputs.len())),
                    };
                }
                let mut i: usize = 0;
                while i < inputs.len()
                    invariant
                        i <= inputs@.len(),
                        *self == MathBuilderElement::BigOperator(*kind, *inputs),
                        inputs@.len() == big_operator_arity(*kind),
                        maths_error(inputs@.take(i as int)) is None,
                    decreases inputs@.len() - i,
                {
                    proof {
                        assert(decreases_to!(*self => (*self)->BigOperator_1));
                        vstd::std_specs::vec::axiom_vec_index_decreases(*inputs, i as int);
                        lemma_maths_error_step(inputs@, i as int);
                    }
                    let e = inputs[i].verify_structure();
                    if e.is_some() {
                        return e;
                    }
                    i = i + 1;
                }
                proof {
                    assert(inputs@.take(i as int) =~= inputs@);
                }
                None
            },
            _ => None,
        }
    }

    /// The piece as it is displayed.
    pub fn finish(&self) -> (r: MathElement)
        requires
            math_element_error(*self) is None,
        ensures
            math_element_matches(*self, r),
        decreases self, 2nat,
    {
        match self {
            MathBuilderElement::Fenced(math) => MathElement::Fenced(math.finish()),
            MathBuilderElement::BigOperator(kind, inputs) => {
                proof {
                    assert(decreases_to!(*self => (*self)->BigOperator_1));
                    vstd::std_specs::vec::axiom_vec_index_decreases(*inputs, 0);
                    reveal_with_fuel(maths_error, 2);
                }
                match kind {
                    BigOperatorKind::SquareRoot => MathElement::SquareRoot(inputs[0].finish()),
                    BigOperatorKind::Power => {
                        proof {
                            vstd::std_specs::vec::axiom_vec_index_decreases(*inputs, 1);
                            assert(inputs@.drop_first()[0] == inputs@[1]);
                            reveal_with_fuel(maths_error, 3);
                        }
                        MathElement::Power(inputs[0].finish(), inputs[1].finish())
                    },
                }
            },
            MathBuilderElement::Operator(o) => MathElement::Operator(o.clone()),
            MathBuilderElement::Separator => MathElement::Separator,
            MathBuilderElement::Symbol(s) => MathElement::Symbol(s.clone()),
            MathBuilderElement::Variable(v) => MathElement::Variable(v.clone()),
            MathBuilderElement::Number(n) => MathElement::Number(n.clone()),
        }
    }
}

/// Whether a displayed piece is what a written piece becomes: the same sign, or its rows
/// finished one for one.
pub open spec fn math_element_matches(element: MathBuilderElement, shown: MathElement) -> bool
    decreases element, 2nat,
{
    match element {
        MathBuilderElement::Fenced(math) => shown matches MathElement::Fenced(m) && math_matches(math, m),
        MathBuilderElement::BigOperator(kind, inputs) => {
            proof {
                vstd::std_specs::vec::axiom_vec_decreases_to_view(inputs);
            }
            match kind {
                BigOperatorKind::SquareRoot => inputs@.len() == 1 && (shown matches MathElement::SquareRoot(m)
                    && math_matches(inputs@[0], m)),
                BigOperatorKind::Power => inputs@.len() == 2 && (shown matches MathElement::Power(b, e)
                    && math_matches(inputs@[0], b) && math_matches(inputs@[1], e)),
            }
        },
        MathBuilderElement::Operator(o) => shown matches MathElement::Operator(p) && p@ == o@,
        MathBuilderElement::Separator => shown is Separator,
        MathBuilderElement::Symbol(s) => shown matches MathElement::Symbol(p) && p@ == s@,
        MathBuilderElement::Variable(v) => shown matches MathElement::Variable(p) && p@ == v@,
        MathBuilderElement::Number(n) => shown matches MathElement::Number(p) && p@ == n@,
    }
}

/// Whether a displayed row is what a written row becomes: as many pieces, each finished.
pub open spec fn math_matches(math: MathBuilder, shown: MathBlock) -> bool
    decreases math, 3nat,
{
    proof {
        vstd::std_specs::vec::axiom_vec_decreases_to_view(math.elements);
    }
    &&& shown.elements@.len() == math.elements@.len()
    &&& forall|i: int| 0 <= i < math.elements@.len() ==> math_element_matches(math.elements@[i], #[trigger] shown.elements@[i])
}

impl MathBuilder {
    /// Checks that every operator of the row gets as many inputs as it takes, stopping at the
    /// first that does not, whose error is returned.
    pub fn verify_structure(&self) -> (r: Option<MathParsingError>)
        ensures
            r == math_error(*self),
        decreases self, 3nat,
    {
        let mut i: usize = 0;
        while i < self.elements.len()
            invariant
                i <= self.elements@.len(),
                math_elements_error(self.elements@.take(i as int)) is None,
            decreases self.elements@.len() - i,
        {
            proof {
                assert(decreases_to!(*self => self.elements));
                vstd::std_specs::vec::axiom_vec_index_decreases(self.elements, i as int);
                lemma_math_elements_error_step(self.elements@, i as int);
            }
            let e = self.elements[i].verify_structure();
            if e.is_some() {
                return e;
            }
            i = i + 1;
        }
        proof {
            assert(self.elements@.take(i as int) =~= self.elements@);
        }
        None
    }

    /// The row as it is displayed.
    pub fn finish(&self) -> (r: MathBlock)
        requires
            math_error(*self) is None,
        ensures
            math_matches(*self, r),
        decreases self, 3nat,
    {
        let mut out: Vec<MathElement> = Vec::new();
        let mut i: usize = 0;
        while i < self.elements.len()
            invariant
                i <= self.elements@.len(),
                math_elements_error(self.elements@) is None,
                out@.len() == i,
                forall|j: int| 0 <= j < i ==> math_element_matches(self.elements@[j], #[trigger] out@[j]),
            decreases self.elements@.len() - i,
        {
            proof {
                assert(decreases_to!(*self => self.elements));
                vstd::std_specs::vec::axiom_vec_index_decreases(self.elements, i as int);
                Self::lemma_no_error_at(self.elements@, i as int);
            }
            let e = self.elements[i].finish();
            out.push(e);
            i = i + 1;
        }
        MathBlock::new(out)
    }

    proof fn lemma_no_error_at(elements: Seq<MathBuilderElement>, i: int)
        requires
            0 <= i < elements.len(),
            math_elements_error(elements) is None,
        ensures
            math_element_error(elements[i]) is None,
        decreases i,
    {
        if i > 0 {
            Self::lemma_no_error_at(elements.drop_first(), i - 1);
        }
    }
}

/// A formula displayed on its own line, as it is written, with the punctuation that follows it.
pub struct DisplayMathBuilder {
    pub math: MathBuilder,
    pub end: String,
}

impl DisplayMathBuilder {
    pub fn verify_structure(&self) -> (r: Option<MathParsingError>)
        ensures
            r == math_error(self.math),
    {
        self.math.verify_structure()
    }

    pub fn finish(&self) -> (r: DisplayMathBlock)
        requires
            math_error(self.math) is None,
        ensures
            math_matches(self.math, r.math),
            r.end@ == self.end@,
    {
        let math = self.math.finish();
        let end = self.end.clone();
        DisplayMathBlock::new(math, end)
    }
}

/// An item of a substitution list as it is written: a variable and its replacement.
pub struct SublistBuilderItem {
    pub var_id: String,
    pub replacement: MathBuilder,
}

/// A substitution list as it is written.
pub struct SublistBuilder {
    pub items: Vec<SublistBuilderItem>,
}

/// The first error among the replacements of a list, if any.
pub open spec fn sublist_error(items: Seq<SublistBuilderItem>) -> Option<MathParsingError>
    decreases items.len(),
{
    if items.len() == 0 {
        None
    } else {
        match math_error(items[0].replacement) {
            Some(e) => Some(e),
            None => sublist_error(items.drop_first()),
        }
    }
}

proof fn lemma_sublist_error_step(items: Seq<SublistBuilderItem>, i: int)
    requires
        0 <= i < items.len(),
        sublist_error(items.take(i)) is None,
    ensures
        sublist_error(items.take(i + 1)) == math_error(items[i].replacement),
        math_error(items[i].replacement) is Some ==> sublist_error(items) == math_error(items[i].replacement),
    decreases i,
{
    if i == 0 {
        assert(items.take(1).drop_first() =~= Seq::<SublistBuilderItem>::empty());
        reveal_with_fuel(sublist_error, 2);
    } else {
        assert(items.take(i).drop_first() =~= items.drop_first().take(i - 1));
        assert(items.take(i + 1).drop_first() =~= items.drop_first().take(i));
        assert(items.take(i)[0] == items[0]);
        assert(items.take(i + 1)[0] == items[0]);
        lemma_sublist_error_step(items.drop_first(), i - 1);
    }
}

proof fn lemma_sublist_no_error_at(items: Seq<SublistBuilderItem>, i: int)
    requires
        0 <= i < items.len(),
        sublist_error(items) is None,
    ensures
        math_error(items[i].replacement) is None,
    decreases i,
{
    if i > 0 {
        lemma_sublist_no_error_at(items.drop_first(), i - 1);
    }
}

impl SublistBuilder {
    /// Checks the replacements in order, stopping at the first that has an error.
    pub fn verify_structure(&self) -> (r: Option<MathParsingError>)
        ensures
            r == sublist_error(self.items@),
    {
        let mut i: usize = 0;
        while i < self.items.len()
            invariant
                i <= self.items@.len(),
                sublist_error(self.items@.take(i as int)) is None,
            decreases self.items@.len() - i,
        {
            proof {
                lemma_sublist_error_step(self.items@, i as int);
            }
            let e = self.items[i].replacement.verify_structure();
            if e.is_some() {
                return e;
            }
            i = i + 1;
        }
        proof {
            assert(self.items@.take(i as int) =~= self.items@);
        }
        None
    }

    pub fn finish(&self) -> (r: Sublist)
        requires
            sublist_error(self.items@) is None,
        ensures
            r.items@.len() == self.items@.len(),
            forall|i: int|
                0 <= i < self.items@.len() ==> (#[trigger] r.items@[i]).var_id@ == self.items@[i].var_id@
                    && math_matches(self.items@[i].replacement, r.items@[i].replacement),
    {
        let mut out: Vec<SublistItem> = Vec::new();
        let mut i: usize = 0;
        while i < self.items.len()
            invariant
                i <= self.items@.len(),
                sublist_error(self.items@) is None,
                out@.len() == i,
                forall|j: int|
                    0 <= j < i ==> (#[trigger] out@[j]).var_id@ == self.items@[j].var_id@
                        && math_matches(self.items@[j].replacement, out@[j].replacement),
            decreases self.items@.len() - i,
        {
            proof {
                lemma_sublist_no_error_at(self.items@, i as int);
            }
            let replacement = self.items[i].replacement.finish();
            out.push(SublistItem::new(self.items[i].var_id.clone(), replacement));
            i = i + 1;
        }
        Sublist::new(out)
    }
}

/// Whether `url::Url::parse` accepts a string as an absolute URL.
pub uninterp spec fn url_parses(url: Seq<char>) -> bool;

/// Whether a string is an absolute URL.
///
/// Trusted: calls `url::Url::parse` and tells whether it returned `Ok`. Which strings it accepts
/// is the URL standard that the crate implements; the contract names that answer `url_parses`,
/// a function of the string alone, and says nothing more of it.
#[verifier::external_body]
fn url_is_valid(url: &str) -> (r: bool)
    ensures
        r == url_parses(url@),
{
    url::Url::parse(url).is_ok()
}

/// A link as it is written: its address and its text.
pub struct HyperlinkBuilder {
    pub url: String,
    pub contents: BareText,
}

impl HyperlinkBuilder {
    /// Whether the address is an absolute URL.
    pub fn verify_structure(&self) -> (r: bool)
        ensures
            r == url_parses(self.url@),
    {
        url_is_valid(self.url.as_str())
    }
}

/// A piece of text without formatting: a link or plain text.
pub enum UnformattedBuilderElement {
    Hyperlink(HyperlinkBuilder),
    BareElement(BareElement),
}

/// Whether a piece of unformatted text is sound: a link must have a valid address.
pub open spec fn unformatted_element_ok(element: UnformattedBuilderElement) -> bool {
    match element {
        UnformattedBuilderElement::Hyperlink(link) => url_parses(link.url@),
        UnformattedBuilderElement::BareElement(_) => true,
    }
}

impl UnformattedBuilderElement {
    pub fn verify_structure(&self) -> (r: bool)
        ensures
            r == unformatted_element_ok(*self),
    {
        match self {
            UnformattedBuilderElement::Hyperlink(link) => link.verify_structure(),
            UnformattedBuilderElement::BareElement(_) => true,
        }
    }
}

/// A run of unformatted text.
pub struct UnformattedBuilder {
    pub elements: Vec<UnformattedBuilderElement>,
}

/// The number of links with an invalid address among the pieces.
pub open spec fn invalid_links(elements: Seq<UnformattedBuilderElement>) -> nat
    decreases elements.len(),
{
    if elements.len() == 0 {
        0
    } else {
        invalid_links(elements.drop_last()) + if unformatted_element_ok(elements.last()) {
            0nat
        } else {
            1nat
        }
    }
}

/// `n` copies of an error.
pub open spec fn repeated<E>(e: E, n: nat) -> Seq<E> {
    Seq::new(n, |_i: int| e)
}

impl UnformattedBuilder {
    /// Checks every link; for each with an invalid address it appends `error` to `errors`.
    /// Whether all were valid is returned.
    pub fn verify_structure<E: Copy>(&self, errors: &mut Vec<E>, error: E) -> (r: bool)
        ensures
            r == (invalid_links(self.elements@) == 0),
            final(errors)@ == old(errors)@ + repeated(error, invalid_links(self.elements@)),
    {
        let ghost start = errors@;
        let mut ok = true;
        let mut i: usize = 0;
        while i < self.elements.len()
            invariant
                i <= self.elements@.len(),
                ok == (invalid_links(self.elements@.take(i as int)) == 0),
                errors@ == start + repeated(error, invalid_links(self.elements@.take(i as int))),
            decreases self.elements@.len() - i,
        {
            proof {
                assert(self.elements@.take(i + 1).drop_last() =~= self.elements@.take(i as int));
            }
            if !self.elements[i].verify_structure() {
                errors.push(error);
                ok = false;
            }
            proof {
                assert(errors@ =~= start + repeated(error, invalid_links(self.elements@.take(i + 1))));
            }
            i = i + 1;
        }
        proof {
            assert(self.elements@.take(i as int) =~= self.elements@);
        }
        ok
    }
}

/// A citation of a bibliography entry, by its key.
pub struct CitationBuilder {
    pub bib_key: String,
}

/// A reference to a system, by its id, with the text that stands for it, if any.
pub struct SystemReferenceBuilder {
    pub id: String,
    pub text: Option<BareText>,
}

/// A reference to a child of a system, by the ids of both.
pub struct SystemChildReferenceBuilder {
    pub system_id: String,
    pub child_id: String,
    pub text: Option<BareText>,
}

/// A reference to a tagged step of the proof that the text belongs to.
pub struct TagReferenceBuilder {
    pub tag: String,
    pub text: Option<BareText>,
}

pub enum ReferenceBuilder {
    System(SystemReferenceBuilder),
    SystemChild(SystemChildReferenceBuilder),
    Tag(TagReferenceBuilder),
}

/// Where a paragraph stands between its style markers: in plain text, in a unicorn-vomit span or
/// in an emphasis span.
#[derive(Clone, Copy, PartialEq, Eq, Debug, Structural)]
pub enum ParagraphFormattingState {
    Plain,
    Unicorn,
    Em,
}

/// An element of a paragraph as it is written.
pub enum ParagraphBuilderElement {
    Reference(ReferenceBuilder),
    InlineMath(MathBuilder),
    Citation(CitationBuilder),

    UnicornVomitBegin,
    UnicornVomitEnd,
    EmBegin,
    EmEnd,

    Unformatted(UnformattedBuilderElement),
}

/// A paragraph as it is written.
pub struct ParagraphBuilder {
    pub elements: Vec<ParagraphBuilderElement>,
}

/// The tags that a text may refer to, where it may refer to any.
pub open spec fn tag_model(tags: Option<&TagIndex>) -> Option<Map<Seq<char>, ProofBuilderStepRef>> {
    match tags {
        Some(t) => Some(t.tags.model()),
        None => None,
    }
}

/// The error of a reference, if any: what it names must exist.
pub open spec fn reference_error(
    reference: ReferenceBuilder,
    index: BuilderIndex,
    tags: Option<Map<Seq<char>, ProofBuilderStepRef>>,
) -> Option<ParagraphElementParsingError> {
    match reference {
        ReferenceBuilder::System(r) => if index.has_system(r.id@) {
            None
        } else {
            Some(ParagraphElementParsingError::SystemReferenceIdNotFound)
        },
        ReferenceBuilder::SystemChild(r) => if index.child(r.system_id@, r.child_id@) is Some {
            None
        } else {
            Some(ParagraphElementParsingError::SystemChildReferenceIdNotFound)
        },
        ReferenceBuilder::Tag(r) => match tags {
            Some(t) => if t.contains_key(r.tag@) {
                None
            } else {
                Some(ParagraphElementParsingError::TagReferenceNotFound)
            },
            None => None,
        },
    }
}

/// What checking one element does: its error, if any, and the style state after it. A style
/// marker moves the state where it fits it and is an error where it does not.
pub open spec fn element_step(
    element: ParagraphBuilderElement,
    state: ParagraphFormattingState,
    index: BuilderIndex,
    tags: Option<Map<Seq<char>, ProofBuilderStepRef>>,
) -> (Option<ParagraphElementParsingError>, ParagraphFormattingState) {
    match element {
        ParagraphBuilderElement::Reference(r) => (reference_error(r, index, tags), state),
        ParagraphBuilderElement::InlineMath(math) => (
            match math_error(math) {
                Some(e) => Some(ParagraphElementParsingError::MathError(e)),
                None => None,
            },
            state,
        ),
        ParagraphBuilderElement::Citation(c) => (
            if index.has_bib_key(c.bib_key@) {
                None
            } else {
                Some(ParagraphElementParsingError::CitationKeyNotFound)
            },
            state,
        ),
        ParagraphBuilderElement::UnicornVomitBegin => if state == ParagraphFormattingState::Plain {
            (None, ParagraphFormattingState::Unicorn)
        } else {
            (Some(ParagraphElementParsingError::UnexpectedUnicornVomitBegin), state)
        },
        ParagraphBuilderElement::UnicornVomitEnd => if state == ParagraphFormattingState::Unicorn {
            (None, ParagraphFormattingState::Plain)
        } else {
            (Some(ParagraphElementParsingError::UnexpectedUnicornVomitEnd), state)
        },
        ParagraphBuilderElement::EmBegin => if state == ParagraphFormattingState::Plain {
            (None, ParagraphFormattingState::Em)
        } else {
            (Some(ParagraphElementParsingError::UnexpectedEmBegin), state)
        },
        ParagraphBuilderElement::EmEnd => if state == ParagraphFormattingState::Em {
            (None, ParagraphFormattingState::Plain)
        } else {
            (Some(ParagraphElementParsingError::UnexpectedEmEnd), state)
        },
        ParagraphBuilderElement::Unformatted(u) => (
            if unformatted_element_ok(u) {
                None
            } else {
                Some(ParagraphElementParsingError::InvalidUrl)
            },
            state,
        ),
    }
}

/// Checking the elements in order from plain text: the state at the end, and each error with
/// the position of its element.
pub open spec fn paragraph_run(
    elements: Seq<ParagraphBuilderElement>,
    index: BuilderIndex,
    tags: Option<Map<Seq<char>, ProofBuilderStepRef>>,
) -> (ParagraphFormattingState, Seq<ParagraphParsingError>)
    decreases elements.len(),
{
    if elements.len() == 0 {
        (ParagraphFormattingState::Plain, seq![])
    } else {
        let before = paragraph_run(elements.drop_last(), index, tags);
        let step = element_step(elements.last(), before.0, index, tags);
        (
            step.1,
            before.1 + match step.0 {
                Some(e) => seq![ParagraphParsingError::ElementError((elements.len() - 1) as usize, e)],
                None => seq![],
            },
        )
    }
}

/// The error for a style left open at the end of a paragraph, if any.
pub open spec fn closing_errors(state: ParagraphFormattingState) -> Seq<ParagraphParsingError> {
    match state {
        ParagraphFormattingState::Plain => seq![],
        ParagraphFormattingState::Unicorn => seq![ParagraphParsingError::UnclosedUnicornVomit],
        ParagraphFormattingState::Em => seq![ParagraphParsingError::UnclosedEm],
    }
}

/// Whether a paragraph is accepted: every style it opens, it closes. Errors of single elements are
/// reported without making the paragraph fail.
pub open spec fn paragraph_ok(
    paragraph: ParagraphBuilder,
    index: BuilderIndex,
    tags: Option<Map<Seq<char>, ProofBuilderStepRef>>,
) -> bool {
    paragraph_run(paragraph.elements@, index, tags).0 == ParagraphFormattingState::Plain
}

/// The errors of a paragraph: those of its elements, in order, then that of an open style.
pub open spec fn paragraph_errors(
    paragraph: ParagraphBuilder,
    index: BuilderIndex,
    tags: Option<Map<Seq<char>, ProofBuilderStepRef>>,
) -> Seq<ParagraphParsingError> {
    let run = paragraph_run(paragraph.elements@, index, tags);
    run.1 + closing_errors(run.0)
}

/// Whether an element refers to a tag.
pub open spec fn is_tag_reference(element: ParagraphBuilderElement) -> bool {
    element matches ParagraphBuilderElement::Reference(ReferenceBuilder::Tag(_))
}

/// Whether a paragraph refers to no tag.
pub open spec fn no_tag_references(paragraph: ParagraphBuilder) -> bool {
    forall|i: int| 0 <= i < paragraph.elements@.len() ==> !is_tag_reference(#[trigger] paragraph.elements@[i])
}

impl ReferenceBuilder {
    pub fn verify_structure(&self, index: &BuilderIndex, tags: Option<&TagIndex>) -> (r: Option<
        ParagraphElementParsingError,
    >)
        requires
            index.wf(),
            tags matches Some(t) ==> t.wf(),
            tags is None ==> !(*self is Tag),
        ensures
            r == reference_error(*self, *index, tag_model(tags)),
    {
        match self {
            ReferenceBuilder::System(r) => if index.search_system(r.id.as_str()) {
                None
            } else {
                Some(ParagraphElementParsingError::SystemReferenceIdNotFound)
            },
            ReferenceBuilder::SystemChild(r) => if index.search_system_child(
                r.system_id.as_str(),
                r.child_id.as_str(),
            ).is_some() {
                None
            } else {
                Some(ParagraphElementParsingError::SystemChildReferenceIdNotFound)
            },
            ReferenceBuilder::Tag(r) => match tags {
                Some(t) => if t.search(r.tag.as_str()).is_some() {
                    None
                } else {
                    Some(ParagraphElementParsingError::TagReferenceNotFound)
                },
                None => None,
            },
        }
    }
}

impl CitationBuilder {
    /// Whether the key names an entry of the bibliography.
    pub fn verify_structure(&self, index: &BuilderIndex) -> (r: bool)
        requires
            index.wf(),
        ensures
            r == index.has_bib_key(self.bib_key@),
    {
        index.search_bib_ref(self.bib_key.as_str()).is_some()
    }
}

impl ParagraphBuilderElement {
    /// Checks one element from the style state before it, and moves the state past it.
    pub fn verify_structure(
        &self,
        index: &BuilderIndex,
        tags: Option<&TagIndex>,
        state: &mut ParagraphFormattingState,
    ) -> (r: Option<ParagraphElementParsingError>)
        requires
            index.wf(),
            tags matches Some(t) ==> t.wf(),
            tags is None ==> !is_tag_reference(*self),
        ensures
            (r, *final(state)) == element_step(*self, *old(state), *index, tag_model(tags)),
    {
        match self {
            ParagraphBuilderElement::Reference(r) => r.verify_structure(index, tags),
            ParagraphBuilderElement::InlineMath(math) => match math.verify_structure() {
                Some(e) => Some(ParagraphElementParsingError::MathError(e)),
                None => None,
            },
            ParagraphBuilderElement::Citation(c) => if c.verify_structure(index) {
                None
            } else {
                Some(ParagraphElementParsingError::CitationKeyNotFound)
            },
            ParagraphBuilderElement::UnicornVomitBegin => match *state {
                ParagraphFormattingState::Plain => {
                    *state = ParagraphFormattingState::Unicorn;
                    None
                },
                _ => Some(ParagraphElementParsingError::UnexpectedUnicornVomitBegin),
            },
            ParagraphBuilderElement::UnicornVomitEnd => match *state {
                ParagraphFormattingState::Unicorn => {
                    *state = ParagraphFormattingState::Plain;
                    None
                },
                _ => Some(ParagraphElementParsingError::UnexpectedUnicornVomitEnd),
            },
            ParagraphBuilderElement::EmBegin => match *state {
                ParagraphFormattingState::Plain => {
                    *state = ParagraphFormattingState::Em;
                    None
                },
                _ => Some(ParagraphElementParsingError::UnexpectedEmBegin),
            },
            ParagraphBuilderElement::EmEnd => match *state {
                ParagraphFormattingState::Em => {
                    *state = ParagraphFormattingState::Plain;
                    None
                },
                _ => Some(ParagraphElementParsingError::UnexpectedEmEnd),
            },
            ParagraphBuilderElement::Unformatted(u) => if u.verify_structure() {
                None
            } else {
                Some(ParagraphElementParsingError::InvalidUrl)
            },
        }
    }
}

impl ParagraphBuilder {
    fn check(&self, index: &BuilderIndex, tags: Option<&TagIndex>) -> (r: (bool, Vec<ParagraphParsingError>))
        requires
            index.wf(),
            tags matches Some(t) ==> t.wf(),
            tags is None ==> no_tag_references(*self),
        ensures
            r.0 == paragraph_ok(*self, *index, tag_model(tags)),
            r.1@ == paragraph_errors(*self, *index, tag_model(tags)),
    {
        let mut errors: Vec<ParagraphParsingError> = Vec::new();
        let mut state = ParagraphFormattingState::Plain;
        let mut i: usize = 0;
        while i < self.elements.len()
            invariant
                i <= self.elements@.len(),
                index.wf(),
                tags matches Some(t) ==> t.wf(),
                tags is None ==> no_tag_references(*self),
                (state, errors@) == paragraph_run(self.elements@.take(i as int), *index, tag_model(tags)),
            decreases self.elements@.len() - i,
        {
            proof {
                assert(self.elements@.take(i + 1).drop_last() =~= self.elements@.take(i as int));
                assert(self.elements@.take(i + 1).last() == self.elements@[i as int]);
            }
            let e = self.elements[i].verify_structure(index, tags, &mut state);
            match e {
                Some(e) => errors.push(ParagraphParsingError::ElementError(i, e)),
                None => {},
            }
            proof {
                let run = paragraph_run(self.elements@.take(i + 1), *index, tag_model(tags));
                assert(errors@ =~= run.1);
            }
            i = i + 1;
        }
        proof {
            assert(self.elements@.take(i as int) =~= self.elements@);
        }
        let ok = match state {
            ParagraphFormattingState::Plain => true,
            ParagraphFormattingState::Unicorn => {
                errors.push(ParagraphParsingError::UnclosedUnicornVomit);
                false
            },
            ParagraphFormattingState::Em => {
                errors.push(ParagraphParsingError::UnclosedEm);
                false
            },
        };
        (ok, errors)
    }

    /// Checks a paragraph that may not refer to tags: its references must name systems and
    /// children of systems that exist, its citations keys of the bibliography, its formulas must
    /// be sound, and its style markers must open and close in turn. Whether it is accepted is
    /// returned with its errors.
    pub fn verify_structure(&self, index: &BuilderIndex) -> (r: (bool, Vec<ParagraphParsingError>))
        requires
            index.wf(),
            no_tag_references(*self),
        ensures
            r.0 == paragraph_ok(*self, *index, None),
            r.1@ == paragraph_errors(*self, *index, None),
    {
        self.check(index, None)
    }

    /// Checks a paragraph of a proof, whose references to tags must name tagged steps.
    pub fn verify_structure_with_tags(&self, index: &BuilderIndex, tags: &TagIndex) -> (r: (
        bool,
        Vec<ParagraphParsingError>,
    ))
        requires
            index.wf(),
            tags.wf(),
        ensures
            r.0 == paragraph_ok(*self, *index, Some(tags.tags.model())),
            r.1@ == paragraph_errors(*self, *index, Some(tags.tags.model())),
    {
        self.check(index, Some(tags))
    }
}

/// What checking a field that may be given at most once yields: whether it passed, and its
/// errors. A single value passes where its links are valid; two or more values are one error.
pub open spec fn optional_field(
    values: Seq<UnformattedBuilder>,
    duplicate: RawCitationParsingError,
) -> (bool, Seq<RawCitationParsingError>) {
    if values.len() == 0 {
        (true, seq![])
    } else if values.len() == 1 {
        let n = invalid_links(values[0].elements@);
        (n == 0, repeated(RawCitationParsingError::InvalidUrl, n))
    } else {
        (false, seq![duplicate])
    }
}

/// Checks a field that may be given at most once, appending its errors.
fn check_optional_field(
    values: &Vec<UnformattedBuilder>,
    duplicate: RawCitationParsingError,
    errors: &mut Vec<RawCitationParsingError>,
) -> (r: bool)
    ensures
        r == optional_field(values@, duplicate).0,
        final(errors)@ == old(errors)@ + optional_field(values@, duplicate).1,
{
    if values.len() == 0 {
        assert(old(errors)@ + seq![] =~= old(errors)@);
        true
    } else if values.len() == 1 {
        values[0].verify_structure(errors, RawCitationParsingError::InvalidUrl)
    } else {
        errors.push(duplicate);
        false
    }
}

/// The container of a citation as it is written: where the cited work appeared. Each field may be
/// given at most once.
pub struct RawCitationContainerBuilder {
    pub container_titles: Vec<UnformattedBuilder>,
    pub other_contributors: Vec<UnformattedBuilder>,
    pub versions: Vec<UnformattedBuilder>,
    pub numbers: Vec<UnformattedBuilder>,
    pub publishers: Vec<UnformattedBuilder>,
    pub publication_dates: Vec<UnformattedBuilder>,
    pub locations: Vec<UnformattedBuilder>,
}

/// The fields of a container, each with the error for giving it twice, in the order in which they
/// are checked.
pub open spec fn container_fields(
    container: RawCitationContainerBuilder,
    position: usize,
) -> Seq<(Seq<UnformattedBuilder>, RawCitationParsingError)> {
    let dup = |e: RawCitationContainerParsingError| RawCitationParsingError::ContainerError(position, e);
    seq![
        (container.container_titles@, dup(RawCitationContainerParsingError::DuplicateTitle)),
        (container.other_contributors@, dup(RawCitationContainerParsingError::DuplicateOtherContributors)),
        (container.versions@, dup(RawCitationContainerParsingError::DuplicateVersion)),
        (container.numbers@, dup(RawCitationContainerParsingError::DuplicateNumber)),
        (container.publishers@, dup(RawCitationContainerParsingError::DuplicatePublisher)),
        (container.publication_dates@, dup(RawCitationContainerParsingError::DuplicatePublicationDate)),
        (container.locations@, dup(RawCitationContainerParsingError::DuplicateLocation)),
    ]
}

/// Checking the first `n` fields in order: whether all passed, and their errors.
pub open spec fn fields_check(
    fields: Seq<(Seq<UnformattedBuilder>, RawCitationParsingError)>,
    n: nat,
) -> (bool, Seq<RawCitationParsingError>)
    decreases n,
{
    if n == 0 || n > fields.len() {
        (true, seq![])
    } else {
        let before = fields_check(fields, (n - 1) as nat);
        let field = optional_field(fields[n - 1].0, fields[n - 1].1);
        (before.0 && field.0, before.1 + field.1)
    }
}

/// Checking a container, named by its position among the containers of its citation.
pub open spec fn container_check(
    container: RawCitationContainerBuilder,
    position: usize,
) -> (bool, Seq<RawCitationParsingError>) {
    fields_check(container_fields(container, position), 7)
}

impl RawCitationContainerBuilder {
    /// Checks the fields in order; `position` names the container in its errors.
    pub fn verify_structure(&self, position: usize, errors: &mut Vec<RawCitationParsingError>) -> (r: bool)
        ensures
            r == container_check(*self, position).0,
            final(errors)@ == old(errors)@ + container_check(*self, position).1,
    {
        let ghost fields = container_fields(*self, position);
        let ghost start = errors@;
        let a = check_optional_field(
            &self.container_titles,
            RawCitationParsingError::ContainerError(position, RawCitationContainerParsingError::DuplicateTitle),
            errors,
        );
        let b = check_optional_field(
            &self.other_contributors,
            RawCitationParsingError::ContainerError(position, RawCitationContainerParsingError::DuplicateOtherContributors),
            errors,
        );
        let c = check_optional_field(
            &self.versions,
            RawCitationParsingError::ContainerError(position, RawCitationContainerParsingError::DuplicateVersion),
            errors,
        );
        let d = check_optional_field(
            &self.numbers,
            RawCitationParsingError::ContainerError(position, RawCitationContainerParsingError::DuplicateNumber),
            errors,
        );
        let e = check_optional_field(
            &self.publishers,
            RawCitationParsingError::ContainerError(position, RawCitationContainerParsingError::DuplicatePublisher),
            errors,
        );
        let f = check_optional_field(
            &self.publication_dates,
            RawCitationParsingError::ContainerError(position, RawCitationContainerParsingError::DuplicatePublicationDate),
            errors,
        );
        let g = check_optional_field(
            &self.locations,
            RawCitationParsingError::ContainerError(position, RawCitationContainerParsingError::DuplicateLocation),
            errors,
        );
        proof {
            reveal_with_fuel(fields_check, 8);
            assert(errors@ =~= start + container_check(*self, position).1);
        }
        a && b && c && d && e && f && g
    }
}

/// A citation written out in full: at most one author, exactly one title, and any number of
/// containers.
pub struct RawCitationBuilder {
    pub authors: Vec<UnformattedBuilder>,
    pub titles: Vec<UnformattedBuilder>,
    pub containers: Vec<RawCitationContainerBuilder>,
}

/// The errors of the first `n` containers, in order, each named by its position.
pub open spec fn containers_errors(containers: Seq<RawCitationContainerBuilder>, n: nat) -> Seq<
    RawCitationParsingError,
>
    decreases n,
{
    if n == 0 || n > containers.len() {
        seq![]
    } else {
        containers_errors(containers, (n - 1) as nat) + container_check(containers[n - 1], (n - 1) as usize).1
    }
}

/// What checking the title yields: it must be given exactly once, with valid links.
pub open spec fn title_check(titles: Seq<UnformattedBuilder>) -> (bool, Seq<RawCitationParsingError>) {
    if titles.len() == 0 {
        (false, seq![RawCitationParsingError::MissingTitle])
    } else {
        optional_field(titles, RawCitationParsingError::DuplicateTitle)
    }
}

/// Whether a citation is accepted: its author and title pass. Its containers report their errors
/// without making it fail.
pub open spec fn raw_citation_ok(citation: RawCitationBuilder) -> bool {
    optional_field(citation.authors@, RawCitationParsingError::DuplicateAuthor).0 && title_check(citation.titles@).0
}

/// The errors of a citation: those of its author, of its title, then of its containers.
pub open spec fn raw_citation_errors(citation: RawCitationBuilder) -> Seq<RawCitationParsingError> {
    optional_field(citation.authors@, RawCitationParsingError::DuplicateAuthor).1 + title_check(citation.titles@).1
        + containers_errors(citation.containers@, citation.containers@.len())
}

impl RawCitationBuilder {
    pub fn verify_structure(&self) -> (r: (bool, Vec<RawCitationParsingError>))
        ensures
            r.0 == raw_citation_ok(*self),
            r.1@ == raw_citation_errors(*self),
    {
        let mut errors: Vec<RawCitationParsingError> = Vec::new();
        let author_ok = check_optional_field(&self.authors, RawCitationParsingError::DuplicateAuthor, &mut errors);
        let title_ok = if self.titles.len() == 0 {
            errors.push(RawCitationParsingError::MissingTitle);
            false
        } else {
            check_optional_field(&self.titles, RawCitationParsingError::DuplicateTitle, &mut errors)
        };
        let ghost head = errors@;
        let mut i: usize = 0;
        while i < self.containers.len()
            invariant
                i <= self.containers@.len(),
                errors@ == head + containers_errors(self.containers@, i as nat),
            decreases self.containers@.len() - i,
        {
            self.containers[i].verify_structure(i, &mut errors);
            proof {
                assert(errors@ =~= head + containers_errors(self.containers@, (i + 1) as nat));
            }
            i = i + 1;
        }
        proof {
            assert(errors@ =~= raw_citation_errors(*self));
        }
        (author_ok && title_ok, errors)
    }
}

/// A block of text as it is written.
pub enum TextBuilder {
    RawCitation(RawCitationBuilder),
    Sublist(SublistBuilder),
    DisplayMath(DisplayMathBuilder),
    Paragraph(ParagraphBuilder),
}

/// What checking a block of text yields: whether it is accepted, and its errors.
pub open spec fn text_check(
    text: TextBuilder,
    index: BuilderIndex,
    tags: Option<Map<Seq<char>, ProofBuilderStepRef>>,
) -> (bool, Seq<TextParsingError>) {
    match text {
        TextBuilder::RawCitation(c) => (
            raw_citation_ok(c),
            raw_citation_errors(c).map_values(|e: RawCitationParsingError| TextParsingError::RawCitationError(e)),
        ),
        TextBuilder::Sublist(l) => match sublist_error(l.items@) {
            Some(e) => (false, seq![TextParsingError::SublistError(e)]),
            None => (true, seq![]),
        },
        TextBuilder::DisplayMath(m) => match math_error(m.math) {
            Some(e) => (false, seq![TextParsingError::DisplayMathError(e)]),
            None => (true, seq![]),
        },
        TextBuilder::Paragraph(p) => (
            paragraph_ok(p, index, tags),
            paragraph_errors(p, index, tags).map_values(|e: ParagraphParsingError| TextParsingError::ParagraphError(e)),
        ),
    }
}

/// Whether a block of text refers to no tag.
pub open spec fn text_no_tag_references(text: TextBuilder) -> bool {
    text matches TextBuilder::Paragraph(p) ==> no_tag_references(p)
}

fn raw_citation_text_error(e: RawCitationParsingError) -> (r: TextParsingError)
    ensures
        r == TextParsingError::RawCitationError(e),
{
    TextParsingError::RawCitationError(e)
}

fn paragraph_text_error(e: ParagraphParsingError) -> (r: TextParsingError)
    ensures
        r == TextParsingError::ParagraphError(e),
{
    TextParsingError::ParagraphError(e)
}

impl TextBuilder {
    fn check(&self, index: &BuilderIndex, tags: Option<&TagIndex>) -> (r: (bool, Vec<TextParsingError>))
        requires
            index.wf(),
            tags matches Some(t) ==> t.wf(),
            tags is None ==> text_no_tag_references(*self),
        ensures
            r.0 == text_check(*self, *index, tag_model(tags)).0,
            r.1@ == text_check(*self, *index, tag_model(tags)).1,
    {
        let mut errors: Vec<TextParsingError> = Vec::new();
        match self {
            TextBuilder::RawCitation(c) => {
                let (ok, inner) = c.verify_structure();
                append_mapped(
                    &mut errors,
                    &inner,
                    raw_citation_text_error,
                    Ghost(|e: RawCitationParsingError| TextParsingError::RawCitationError(e)),
                );
                assert(errors@ =~= text_check(*self, *index, tag_model(tags)).1);
                (ok, errors)
            },
            TextBuilder::Sublist(l) => match l.verify_structure() {
                Some(e) => {
                    errors.push(TextParsingError::SublistError(e));
                    (false, errors)
                },
                None => (true, errors),
            },
            TextBuilder::DisplayMath(m) => match m.verify_structure() {
                Some(e) => {
                    errors.push(TextParsingError::DisplayMathError(e));
                    (false, errors)
                },
                None => (true, errors),
            },
            TextBuilder::Paragraph(p) => {
                let (ok, inner) = p.check(index, tags);
                append_mapped(
                    &mut errors,
                    &inner,
                    paragraph_text_error,
                    Ghost(|e: ParagraphParsingError| TextParsingError::ParagraphError(e)),
                );
                assert(errors@ =~= text_check(*self, *index, tag_model(tags)).1);
                (ok, errors)
            },
        }
    }

    /// Checks a block of text that may not refer to tags.
    pub fn verify_structure(&self, index: &BuilderIndex) -> (r: (bool, Vec<TextParsingError>))
        requires
            index.wf(),
            text_no_tag_references(*self),
        ensures
            r.0 == text_check(*self, *index, None).0,
            r.1@ == text_check(*self, *index, None).1,
    {
        self.check(index, None)
    }

    /// Checks a block of text of a proof, whose references to tags must name tagged steps.
    pub fn verify_structure_with_tags(&self, index: &BuilderIndex, tags: &TagIndex) -> (r: (
        bool,
        Vec<TextParsingError>,
    ))
        requires
            index.wf(),
            tags.wf(),
        ensures
            r.0 == text_check(*self, *index, Some(tags.tags.model())).0,
            r.1@ == text_check(*self, *index, Some(tags.tags.model())).1,
    {
        self.check(index, Some(tags))
    }
}

/// The entries that an element of a paragraph cites: that of a citation's key.
pub open spec fn element_bib_refs(element: ParagraphBuilderElement, index: BuilderIndex) -> Seq<
    BibliographyBuilderRef,
> {
    match element {
        ParagraphBuilderElement::Citation(c) => seq![index.bib_refs.model()[c.bib_key@]],
        _ => seq![],
    }
}

/// The entries that the first `n` elements of a paragraph cite, in order.
pub open spec fn elements_bib_refs(elements: Seq<ParagraphBuilderElement>, index: BuilderIndex, n: nat) -> Seq<
    BibliographyBuilderRef,
>
    decreases n,
{
    if n == 0 || n > elements.len() {
        seq![]
    } else {
        elements_bib_refs(elements, index, (n - 1) as nat) + element_bib_refs(elements[n - 1], index)
    }
}

/// The entries that a paragraph cites, in order, once for each citation.
pub open spec fn paragraph_bib_refs(paragraph: ParagraphBuilder, index: BuilderIndex) -> Seq<BibliographyBuilderRef> {
    elements_bib_refs(paragraph.elements@, index, paragraph.elements@.len())
}

/// Whether every key that a paragraph cites names an entry of the bibliography.
pub open spec fn citations_known(paragraph: ParagraphBuilder, index: BuilderIndex) -> bool {
    forall|i: int|
        0 <= i < paragraph.elements@.len() ==> (#[trigger] paragraph.elements@[i] matches ParagraphBuilderElement::Citation(
            c,
        ) ==> index.has_bib_key(c.bib_key@))
}

impl ParagraphBuilder {
    /// The entries that the paragraph cites, in order, once for each citation.
    pub fn bib_refs(&self, index: &BuilderIndex) -> (r: Vec<BibliographyBuilderRef>)
        requires
            index.wf(),
            citations_known(*self, *index),
        ensures
            r@ == paragraph_bib_refs(*self, *index),
    {
        let mut refs: Vec<BibliographyBuilderRef> = Vec::new();
        let mut i: usize = 0;
        while i < self.elements.len()
            invariant
                i <= self.elements@.len(),
                index.wf(),
                citations_known(*self, *index),
                refs@ == elements_bib_refs(self.elements@, *index, i as nat),
            decreases self.elements@.len() - i,
        {
            match &self.elements[i] {
                ParagraphBuilderElement::Citation(c) => {
                    assert(index.has_bib_key(c.bib_key@));
                    match index.search_bib_ref(c.bib_key.as_str()) {
                        Some(bib_ref) => refs.push(bib_ref),
                        None => {},
                    }
                },
                _ => {},
            }
            i = i + 1;
        }
        refs
    }
}

/// The entries that a block of text cites: those of a paragraph.
pub open spec fn text_bib_refs(text: TextBuilder, index: BuilderIndex) -> Seq<BibliographyBuilderRef> {
    match text {
        TextBuilder::Paragraph(p) => paragraph_bib_refs(p, index),
        _ => seq![],
    }
}

/// Whether every key that a block of text cites names an entry of the bibliography.
pub open spec fn text_citations_known(text: TextBuilder, index: BuilderIndex) -> bool {
    text matches TextBuilder::Paragraph(p) ==> citations_known(p, index)
}

impl TextBuilder {
    /// The entries that the text cites, in order.
    pub fn bib_refs(&self, index: &BuilderIndex) -> (r: Vec<BibliographyBuilderRef>)
        requires
            index.wf(),
            text_citations_known(*self, *index),
        ensures
            r@ == text_bib_refs(*self, *index),
    {
        match self {
            TextBuilder::Paragraph(p) => p.bib_refs(index),
            _ => Vec::new(),
        }
    }
}

} // verus!
