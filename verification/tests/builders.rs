use ckproof::builders::directory::{
    AxiomBuilderRef, BibliographyBuilderRef, ProofBuilderStepRef, SymbolBuilderRef, TagIndex, TheoremBuilderRef,
    VariableBuilderRef,
};
use ckproof::builders::errors::{
    ReadableParsingError,
    AxiomParsingError, DefinitionParsingError, Flag, FlagListParsingError, MathParsingError,
    ParagraphElementParsingError, ParagraphParsingError, ProofParsingError, ProofStepParsingError,
    RawCitationContainerParsingError, RawCitationParsingError, SymbolParsingError, SystemParsingError,
    TextParsingError, TheoremParsingError, TypeParsingError, TypeSignatureParsingError, VariableParsingError,
};
use ckproof::builders::index::{
    BuilderIndex, ProofIndexError, SystemChildEntry, SystemChildIndexError, SystemChildKind,
};
use ckproof::builders::language::{
    DeductableBuilder, FormulaBuilder, PropertyList, ReadableBuilder,
    DefinitionBuilderEntries, DisplayFormulaBuilder, ReadBuilder, ReadOperator, ReadStyle, SymbolBuilderEntries,
    TypeBuilderEntries, TypeSignatureBuilder, TypeSignatureBuilderGround, VariableBuilder,
};
use ckproof::builders::system::{
    Claim, FlagCheckingError, PropertyTable,
    AxiomBuilderEntries, FlagList, MacroJustificationBuilder, ProofBuilder, ProofBuilderElement, ProofBuilderMeta,
    ProofBuilderStep, ProofJustificationBuilder, SystemBuilderEntries, SystemChildJustificationBuilder,
    TheoremBuilderEntries,
};
use ckproof::builders::text::{
    BigOperatorKind, CitationBuilder, DisplayMathBuilder, HyperlinkBuilder, MathBuilder, MathBuilderElement,
    ParagraphBuilder, ParagraphBuilderElement, ParagraphFormattingState, RawCitationBuilder,
    RawCitationContainerBuilder, ReferenceBuilder, SublistBuilder, SublistBuilderItem, SystemChildReferenceBuilder,
    SystemReferenceBuilder, TagReferenceBuilder, TextBuilder, UnformattedBuilder, UnformattedBuilderElement,
};
use ckproof::document::language::DisplayStyle;
use ckproof::document::text::{BareElement, BareText, MathElement};

fn entry(kind: SystemChildKind, serial: usize) -> SystemChildEntry {
    SystemChildEntry { kind, serial, premises: 0 }
}

/// An index with the system `logic`, its type `prop` (block 1), its symbol `top` (block 2), its
/// axiom `truth` (block 3), its theorem `thm` (block 4, one premise), and the bibliography key
/// `knuth`.
fn index() -> BuilderIndex {
    let mut index = BuilderIndex::new();
    assert_eq!(index.add_system("logic", 0), None);
    assert!(index.add_system_child("logic", "prop", entry(SystemChildKind::Type, 1)).is_ok());
    assert!(index.add_system_child("logic", "top", entry(SystemChildKind::Symbol, 2)).is_ok());
    assert!(index.add_system_child("logic", "truth", entry(SystemChildKind::Axiom, 3)).is_ok());
    let theorem = SystemChildEntry { kind: SystemChildKind::Theorem, serial: 4, premises: 1 };
    assert!(index.add_system_child("logic", "thm", theorem).is_ok());
    assert_eq!(index.add_bib_ref("knuth", BibliographyBuilderRef(0)), None);
    index
}

#[test]
fn index_finds_what_was_added() {
    let mut index = index();
    assert!(index.search_system("logic"));
    assert!(!index.search_system("sets"));
    assert_eq!(index.search_system_child("logic", "prop"), Some(entry(SystemChildKind::Type, 1)));
    assert_eq!(index.search_system_child("logic", "nope"), None);
    assert_eq!(index.search_system_child("sets", "prop"), None);
    assert_eq!(index.search_bib_ref("knuth"), Some(BibliographyBuilderRef(0)));
    assert_eq!(index.search_bib_ref("lamport"), None);
    // Ids are taken once.
    assert_eq!(index.add_system("logic", 9), Some(0));
    assert_eq!(
        index.add_system_child("logic", "prop", entry(SystemChildKind::Symbol, 9)),
        Err(SystemChildIndexError::IdAlreadyTaken(entry(SystemChildKind::Type, 1)))
    );
    assert_eq!(
        index.add_system_child("sets", "prop", entry(SystemChildKind::Type, 9)),
        Err(SystemChildIndexError::ParentNotFound)
    );
    assert_eq!(index.add_bib_ref("knuth", BibliographyBuilderRef(5)), Some(BibliographyBuilderRef(0)));
    assert_eq!(index.search_system_child("logic", "prop"), Some(entry(SystemChildKind::Type, 1)));
}

#[test]
fn index_records_the_first_proof_of_a_theorem() {
    let mut index = index();
    assert_eq!(index.search_first_proof("logic", "thm"), None);
    assert_eq!(index.add_proof("logic", "thm", 7), Ok(()));
    assert_eq!(index.add_proof("logic", "thm", 9), Ok(()));
    assert_eq!(index.search_first_proof("logic", "thm"), Some(7));
    assert_eq!(index.add_proof("logic", "truth", 9), Err(ProofIndexError::ParentNotTheorem));
    assert_eq!(index.add_proof("logic", "lemma", 9), Err(ProofIndexError::ParentNotFound));
}

fn math(elements: Vec<MathBuilderElement>) -> MathBuilder {
    MathBuilder { elements }
}

fn number(n: &str) -> MathBuilderElement {
    MathBuilderElement::Number(n.to_owned())
}

#[test]
fn operators_need_their_inputs() {
    assert_eq!(BigOperatorKind::SquareRoot.arity(), 1);
    assert_eq!(BigOperatorKind::Power.arity(), 2);
    let good = math(vec![MathBuilderElement::BigOperator(
        BigOperatorKind::Power,
        vec![math(vec![number("2")]), math(vec![number("3")])],
    )]);
    assert_eq!(good.verify_structure(), None);
    let bad_root = math(vec![
        number("1"),
        MathBuilderElement::BigOperator(BigOperatorKind::SquareRoot, vec![]),
        MathBuilderElement::BigOperator(BigOperatorKind::Power, vec![]),
    ]);
    // Checking stops at the first error.
    assert_eq!(bad_root.verify_structure(), Some(MathParsingError::SquareRootWrongInputArity(0)));
    let nested = math(vec![MathBuilderElement::Fenced(math(vec![MathBuilderElement::BigOperator(
        BigOperatorKind::Power,
        vec![math(vec![])],
    )]))]);
    assert_eq!(nested.verify_structure(), Some(MathParsingError::PowerWrongInputArity(1)));
}

#[test]
fn finished_math_has_the_same_shape() {
    let built = math(vec![
        MathBuilderElement::Variable("x".to_owned()),
        MathBuilderElement::Operator("+".to_owned()),
        MathBuilderElement::BigOperator(BigOperatorKind::SquareRoot, vec![math(vec![number("2")])]),
        MathBuilderElement::Separator,
        MathBuilderElement::Symbol("f".to_owned()),
    ]);
    let block = built.finish();
    assert_eq!(block.elements.len(), 5);
    assert!(matches!(&block.elements[2], MathElement::SquareRoot(inner) if inner.elements.len() == 1));
    assert_eq!(
        block.render(),
        "<mrow><mo class=\"var\">&apos;</mo><mi>x</mi><mo>+</mo><msqrt><mrow><mn>2</mn></mrow></msqrt>\
<mo class=\"separator\">,</mo><mi>f</mi></mrow>"
    );
    let display = DisplayMathBuilder { math: math(vec![number("4")]), end: ",".to_owned() };
    assert_eq!(display.verify_structure(), None);
    let finished = display.finish();
    assert_eq!(finished.end, ",");
    assert_eq!(finished.math.render(), "<mrow><mn>4</mn></mrow>");
}

#[test]
fn sublists_check_their_replacements() {
    let good = SublistBuilder {
        items: vec![SublistBuilderItem { var_id: "x".to_owned(), replacement: math(vec![number("1")]) }],
    };
    assert_eq!(good.verify_structure(), None);
    let finished = good.finish();
    assert_eq!(finished.items.len(), 1);
    assert_eq!(finished.items[0].var_id, "x");
    let bad = SublistBuilder {
        items: vec![
            SublistBuilderItem { var_id: "x".to_owned(), replacement: math(vec![number("1")]) },
            SublistBuilderItem {
                var_id: "y".to_owned(),
                replacement: math(vec![MathBuilderElement::BigOperator(BigOperatorKind::SquareRoot, vec![])]),
            },
        ],
    };
    assert_eq!(bad.verify_structure(), Some(MathParsingError::SquareRootWrongInputArity(0)));
}

fn word(w: &str) -> ParagraphBuilderElement {
    ParagraphBuilderElement::Unformatted(UnformattedBuilderElement::BareElement(BareElement::Word(w.to_owned())))
}

fn paragraph(elements: Vec<ParagraphBuilderElement>) -> ParagraphBuilder {
    ParagraphBuilder { elements }
}

#[test]
fn paragraph_styles_must_nest() {
    let index = index();
    let good = paragraph(vec![
        ParagraphBuilderElement::EmBegin,
        word("a"),
        ParagraphBuilderElement::EmEnd,
        ParagraphBuilderElement::UnicornVomitBegin,
        ParagraphBuilderElement::UnicornVomitEnd,
    ]);
    assert_eq!(good.verify_structure(&index), (true, vec![]));

    let unclosed = paragraph(vec![ParagraphBuilderElement::UnicornVomitBegin, word("a")]);
    assert_eq!(unclosed.verify_structure(&index), (false, vec![ParagraphParsingError::UnclosedUnicornVomit]));

    let crossed = paragraph(vec![
        ParagraphBuilderElement::EmBegin,
        ParagraphBuilderElement::UnicornVomitBegin,
        ParagraphBuilderElement::UnicornVomitEnd,
        ParagraphBuilderElement::EmEnd,
        ParagraphBuilderElement::EmEnd,
        ParagraphBuilderElement::EmBegin,
    ]);
    assert_eq!(
        crossed.verify_structure(&index),
        (
            false,
            vec![
                ParagraphParsingError::ElementError(1, ParagraphElementParsingError::UnexpectedUnicornVomitBegin),
                ParagraphParsingError::ElementError(2, ParagraphElementParsingError::UnexpectedUnicornVomitEnd),
                ParagraphParsingError::ElementError(4, ParagraphElementParsingError::UnexpectedEmEnd),
                ParagraphParsingError::UnclosedEm,
            ]
        )
    );
}

#[test]
fn formatting_state_moves_with_markers() {
    let index = index();
    let mut state = ParagraphFormattingState::Plain;
    assert_eq!(ParagraphBuilderElement::EmBegin.verify_structure(&index, None, &mut state), None);
    assert_eq!(state, ParagraphFormattingState::Em);
    assert_eq!(
        ParagraphBuilderElement::UnicornVomitEnd.verify_structure(&index, None, &mut state),
        Some(ParagraphElementParsingError::UnexpectedUnicornVomitEnd)
    );
    assert_eq!(state, ParagraphFormattingState::Em);
    assert_eq!(
        ParagraphBuilderElement::EmBegin.verify_structure(&index, None, &mut state),
        Some(ParagraphElementParsingError::UnexpectedEmBegin)
    );
    assert_eq!(ParagraphBuilderElement::EmEnd.verify_structure(&index, None, &mut state), None);
    assert_eq!(state, ParagraphFormattingState::Plain);
}

fn system_ref(id: &str) -> ParagraphBuilderElement {
    ParagraphBuilderElement::Reference(ReferenceBuilder::System(SystemReferenceBuilder { id: id.to_owned(), text: None }))
}

fn child_ref(system: &str, child: &str) -> ParagraphBuilderElement {
    ParagraphBuilderElement::Reference(ReferenceBuilder::SystemChild(SystemChildReferenceBuilder {
        system_id: system.to_owned(),
        child_id: child.to_owned(),
        text: Some(BareText::new(vec![BareElement::Word("see".to_owned())])),
    }))
}

fn citation(key: &str) -> ParagraphBuilderElement {
    ParagraphBuilderElement::Citation(CitationBuilder { bib_key: key.to_owned() })
}

#[test]
fn paragraph_references_must_resolve() {
    let index = index();
    let p = paragraph(vec![
        system_ref("logic"),
        system_ref("sets"),
        child_ref("logic", "prop"),
        child_ref("logic", "nope"),
        citation("knuth"),
        citation("lamport"),
        ParagraphBuilderElement::InlineMath(math(vec![MathBuilderElement::BigOperator(
            BigOperatorKind::Power,
            vec![],
        )])),
    ]);
    // Errors of single elements are reported, but the paragraph itself is accepted.
    assert_eq!(
        p.verify_structure(&index),
        (
            true,
            vec![
                ParagraphParsingError::ElementError(1, ParagraphElementParsingError::SystemReferenceIdNotFound),
                ParagraphParsingError::ElementError(3, ParagraphElementParsingError::SystemChildReferenceIdNotFound),
                ParagraphParsingError::ElementError(5, ParagraphElementParsingError::CitationKeyNotFound),
                ParagraphParsingError::ElementError(
                    6,
                    ParagraphElementParsingError::MathError(MathParsingError::PowerWrongInputArity(0)),
                ),
            ]
        )
    );
}

#[test]
fn tag_references_need_a_tagged_step() {
    let index = index();
    let mut tags = TagIndex::new();
    tags.add_tag("step", ProofBuilderStepRef(0));
    let p = paragraph(vec![
        ParagraphBuilderElement::Reference(ReferenceBuilder::Tag(TagReferenceBuilder { tag: "step".to_owned(), text: None })),
        ParagraphBuilderElement::Reference(ReferenceBuilder::Tag(TagReferenceBuilder { tag: "gone".to_owned(), text: None })),
    ]);
    assert_eq!(
        p.verify_structure_with_tags(&index, &tags),
        (true, vec![ParagraphParsingError::ElementError(1, ParagraphElementParsingError::TagReferenceNotFound)])
    );
}

fn link(url: &str) -> UnformattedBuilderElement {
    UnformattedBuilderElement::Hyperlink(HyperlinkBuilder {
        url: url.to_owned(),
        contents: BareText::new(vec![BareElement::Word("link".to_owned())]),
    })
}

#[test]
fn links_need_absolute_urls() {
    assert!(HyperlinkBuilder { url: "https://example.net".to_owned(), contents: BareText::new(vec![]) }.verify_structure());
    assert!(!HyperlinkBuilder { url: "not a url".to_owned(), contents: BareText::new(vec![]) }.verify_structure());
    let index = index();
    let p = paragraph(vec![
        ParagraphBuilderElement::Unformatted(link("https://example.net/a")),
        ParagraphBuilderElement::Unformatted(link("/relative/path")),
    ]);
    assert_eq!(
        p.verify_structure(&index),
        (true, vec![ParagraphParsingError::ElementError(1, ParagraphElementParsingError::InvalidUrl)])
    );
    let mut errors: Vec<u8> = vec![];
    let run = UnformattedBuilder { elements: vec![link("mailto:a@b.c"), link("::"), link("::")] };
    assert!(!run.verify_structure(&mut errors, 7));
    assert_eq!(errors, vec![7, 7]);
}

fn unformatted(w: &str) -> UnformattedBuilder {
    UnformattedBuilder { elements: vec![UnformattedBuilderElement::BareElement(BareElement::Word(w.to_owned()))] }
}

fn container() -> RawCitationContainerBuilder {
    RawCitationContainerBuilder {
        container_titles: vec![],
        other_contributors: vec![],
        versions: vec![],
        numbers: vec![],
        publishers: vec![],
        publication_dates: vec![],
        locations: vec![],
    }
}

#[test]
fn raw_citations_need_one_title() {
    let good = RawCitationBuilder { authors: vec![unformatted("Knuth")], titles: vec![unformatted("TAOCP")], containers: vec![] };
    assert_eq!(good.verify_structure(), (true, vec![]));
    let untitled = RawCitationBuilder { authors: vec![unformatted("a"), unformatted("b")], titles: vec![], containers: vec![] };
    assert_eq!(
        untitled.verify_structure(),
        (false, vec![RawCitationParsingError::DuplicateAuthor, RawCitationParsingError::MissingTitle])
    );
    let mut twice = container();
    twice.publishers = vec![unformatted("a"), unformatted("b")];
    twice.locations = vec![unformatted("a"), unformatted("b")];
    let with_containers = RawCitationBuilder {
        authors: vec![],
        titles: vec![unformatted("t"), unformatted("u")],
        containers: vec![container(), twice],
    };
    // Errors of containers are reported without making the citation fail.
    assert_eq!(
        with_containers.verify_structure(),
        (
            false,
            vec![
                RawCitationParsingError::DuplicateTitle,
                RawCitationParsingError::ContainerError(1, RawCitationContainerParsingError::DuplicatePublisher),
                RawCitationParsingError::ContainerError(1, RawCitationContainerParsingError::DuplicateLocation),
            ]
        )
    );
    let linked = RawCitationBuilder {
        authors: vec![],
        titles: vec![UnformattedBuilder { elements: vec![link("bad")] }],
        containers: vec![],
    };
    assert_eq!(linked.verify_structure(), (false, vec![RawCitationParsingError::InvalidUrl]));
}

#[test]
fn text_blocks_tag_their_errors() {
    let index = index();
    let text = TextBuilder::Paragraph(paragraph(vec![ParagraphBuilderElement::EmBegin]));
    assert_eq!(
        text.verify_structure(&index),
        (false, vec![TextParsingError::ParagraphError(ParagraphParsingError::UnclosedEm)])
    );
    let display = TextBuilder::DisplayMath(DisplayMathBuilder {
        math: math(vec![MathBuilderElement::BigOperator(BigOperatorKind::SquareRoot, vec![])]),
        end: String::new(),
    });
    assert_eq!(
        display.verify_structure(&index),
        (false, vec![TextParsingError::DisplayMathError(MathParsingError::SquareRootWrongInputArity(0))])
    );
    let sublist = TextBuilder::Sublist(SublistBuilder { items: vec![] });
    assert_eq!(sublist.verify_structure(&index), (true, vec![]));
    let cited = TextBuilder::RawCitation(RawCitationBuilder { authors: vec![], titles: vec![], containers: vec![] });
    assert_eq!(
        cited.verify_structure(&index),
        (false, vec![TextParsingError::RawCitationError(RawCitationParsingError::MissingTitle)])
    );
}

fn ground(id: &str) -> TypeSignatureBuilder {
    TypeSignatureBuilder::Ground(TypeSignatureBuilderGround { id: id.to_owned() })
}

#[test]
fn type_signatures_name_earlier_types() {
    let index = index();
    assert_eq!(ground("prop").verify_structure("logic", 5, &index), vec![]);
    assert_eq!(ground("prop").verify_structure("logic", 1, &index), vec![TypeSignatureParsingError::ForwardReference]);
    assert_eq!(ground("top").verify_structure("logic", 5, &index), vec![TypeSignatureParsingError::SystemChildWrongKind]);
    let compound = TypeSignatureBuilder::Compound(Box::new(ground("nat")), Box::new(ground("top")));
    assert_eq!(
        compound.verify_structure("logic", 5, &index),
        vec![TypeSignatureParsingError::TypeIdNotFound, TypeSignatureParsingError::SystemChildWrongKind]
    );
    let variable = VariableBuilder { id: "x".to_owned(), type_signature: ground("nat") };
    assert_eq!(
        variable.verify_structure("logic", 5, &index),
        vec![VariableParsingError::TypeSignatureError(TypeSignatureParsingError::TypeIdNotFound)]
    );
}

#[test]
fn read_operators_bind_and_display() {
    assert_eq!(ReadOperator::Equivalent.precedence(), 0);
    assert_eq!(ReadOperator::Or.precedence(), 3);
    assert_eq!(ReadOperator::Plus.precedence(), 5);
    assert!(ReadOperator::Minus.is_left_associative());
    assert!(!ReadOperator::Implies.is_left_associative());
    assert_eq!(ReadOperator::Implies.to_display(), "\u{2192}");
    let read = ReadBuilder { style: ReadStyle::Infix, operator: ReadOperator::And };
    let display = read.to_display();
    assert_eq!(display.style, DisplayStyle::Infix);
    assert_eq!(display.id, "\u{2227}");
}

fn tagline() -> Vec<ParagraphBuilder> {
    vec![paragraph(vec![word("tag")])]
}

#[test]
fn type_entries_need_a_name_and_a_tagline() {
    let index = index();
    let good = TypeBuilderEntries { names: vec!["Prop".to_owned()], taglines: tagline(), descriptions: vec![] };
    assert_eq!(good.verify_structure(&index), (true, vec![]));
    let bad = TypeBuilderEntries {
        names: vec![],
        taglines: vec![paragraph(vec![]), paragraph(vec![])],
        descriptions: vec![vec![], vec![]],
    };
    assert_eq!(
        bad.verify_structure(&index),
        (
            false,
            vec![TypeParsingError::MissingName, TypeParsingError::DuplicateTagline, TypeParsingError::DuplicateDescription]
        )
    );
    let described = TypeBuilderEntries {
        names: vec!["Prop".to_owned()],
        taglines: vec![paragraph(vec![ParagraphBuilderElement::EmBegin])],
        descriptions: vec![vec![
            TextBuilder::Sublist(SublistBuilder { items: vec![] }),
            TextBuilder::Paragraph(paragraph(vec![system_ref("sets")])),
        ]],
    };
    assert_eq!(
        described.verify_structure(&index),
        (
            false,
            vec![
                TypeParsingError::TaglineParsingError(ParagraphParsingError::UnclosedEm),
                TypeParsingError::DescriptionParsingError(
                    1,
                    TextParsingError::ParagraphError(ParagraphParsingError::ElementError(
                        0,
                        ParagraphElementParsingError::SystemReferenceIdNotFound,
                    )),
                ),
            ]
        )
    );
}

#[test]
fn system_entries_need_a_name_and_a_tagline() {
    let index = index();
    let good = SystemBuilderEntries { names: vec!["Logic".to_owned()], taglines: tagline(), descriptions: vec![] };
    assert_eq!(good.verify_structure(&index), (true, vec![]));
    let bad = SystemBuilderEntries { names: vec!["a".to_owned(), "b".to_owned()], taglines: vec![], descriptions: vec![] };
    assert_eq!(
        bad.verify_structure(&index),
        (false, vec![SystemParsingError::DuplicateName, SystemParsingError::MissingTagline])
    );
}

#[test]
fn symbol_entries_need_a_type_signature() {
    let index = index();
    let good = SymbolBuilderEntries {
        names: vec!["Top".to_owned()],
        taglines: tagline(),
        descriptions: vec![],
        type_signatures: vec![ground("prop")],
        reads: vec![],
        displays: vec![],
    };
    assert_eq!(good.verify_structure("logic", 5, &index), (true, vec![]));
    let read = ReadBuilder { style: ReadStyle::Prefix, operator: ReadOperator::Negation };
    let bad = SymbolBuilderEntries {
        names: vec!["Top".to_owned()],
        taglines: tagline(),
        descriptions: vec![],
        type_signatures: vec![],
        reads: vec![read, read],
        displays: vec![],
    };
    assert_eq!(
        bad.verify_structure("logic", 5, &index),
        (false, vec![SymbolParsingError::MissingTypeSignature, SymbolParsingError::DuplicateReads])
    );
    let forward = SymbolBuilderEntries {
        names: vec!["Top".to_owned()],
        taglines: tagline(),
        descriptions: vec![],
        type_signatures: vec![ground("prop")],
        reads: vec![],
        displays: vec![],
    };
    assert_eq!(
        forward.verify_structure("logic", 0, &index),
        (false, vec![SymbolParsingError::TypeSignatureError(TypeSignatureParsingError::ForwardReference)])
    );
}

fn formula() -> DisplayFormulaBuilder {
    DisplayFormulaBuilder {
        display: math(vec![MathBuilderElement::Symbol("top".to_owned())]),
        formula: FormulaBuilder::Symbol(SymbolBuilderRef(1)),
    }
}

#[test]
fn definition_entries_need_an_expansion() {
    let index = index();
    let good = DefinitionBuilderEntries {
        names: vec!["Neg".to_owned()],
        taglines: tagline(),
        descriptions: vec![],
        inputs: vec![vec![VariableBuilder { id: "p".to_owned(), type_signature: ground("prop") }]],
        reads: vec![],
        displays: vec![],
        expansions: vec![formula()],
    };
    assert_eq!(good.verify_structure("logic", 5, &index), (true, vec![]));
    let bad = DefinitionBuilderEntries {
        names: vec!["Neg".to_owned()],
        taglines: tagline(),
        descriptions: vec![],
        inputs: vec![vec![VariableBuilder { id: "p".to_owned(), type_signature: ground("nat") }]],
        reads: vec![],
        displays: vec![],
        expansions: vec![],
    };
    // Errors of the inputs are reported without making the block fail on their own.
    assert_eq!(
        bad.verify_structure("logic", 5, &index),
        (
            false,
            vec![
                DefinitionParsingError::VariableError(
                    0,
                    VariableParsingError::TypeSignatureError(TypeSignatureParsingError::TypeIdNotFound),
                ),
                DefinitionParsingError::MissingExpansion,
            ]
        )
    );
}

#[test]
fn flag_lists_reject_repeated_flags() {
    let flags = FlagList { raw_list: vec![Flag::Reflexive, Flag::Symmetric, Flag::Reflexive, Flag::Function, Flag::Reflexive] };
    assert_eq!(
        flags.verify_structure(),
        vec![FlagListParsingError::DuplicateFlag(Flag::Reflexive), FlagListParsingError::DuplicateFlag(Flag::Reflexive)]
    );
    assert_eq!(FlagList { raw_list: vec![Flag::Transitive] }.verify_structure(), vec![]);
}

#[test]
fn axiom_entries_need_an_assertion() {
    let index = index();
    let good = AxiomBuilderEntries {
        names: vec!["Truth".to_owned()],
        taglines: tagline(),
        descriptions: vec![],
        flag_lists: vec![FlagList { raw_list: vec![Flag::Reflexive] }],
        vars: vec![],
        premises: vec![vec![formula()]],
        assertions: vec![formula()],
    };
    assert_eq!(good.verify_structure("logic", 5, &index), (true, vec![]));
    let bad = AxiomBuilderEntries {
        names: vec!["Truth".to_owned()],
        taglines: tagline(),
        descriptions: vec![],
        flag_lists: vec![FlagList { raw_list: vec![Flag::Symmetric, Flag::Symmetric] }],
        vars: vec![VariableBuilder { id: "x".to_owned(), type_signature: ground("top") }],
        premises: vec![vec![], vec![]],
        assertions: vec![],
    };
    assert_eq!(
        bad.verify_structure("logic", 5, &index),
        (
            false,
            vec![
                AxiomParsingError::FlagListError(FlagListParsingError::DuplicateFlag(Flag::Symmetric)),
                AxiomParsingError::VariableError(
                    0,
                    VariableParsingError::TypeSignatureError(TypeSignatureParsingError::SystemChildWrongKind),
                ),
                AxiomParsingError::DuplicatePremise,
                AxiomParsingError::MissingAssertion,
            ]
        )
    );
}

#[test]
fn theorem_variable_errors_do_not_fail_the_block() {
    let index = index();
    let entries = TheoremBuilderEntries {
        names: vec!["Thm".to_owned()],
        taglines: tagline(),
        descriptions: vec![],
        flag_lists: vec![],
        vars: vec![VariableBuilder { id: "x".to_owned(), type_signature: ground("top") }],
        premises: vec![],
        assertions: vec![formula(), formula()],
    };
    assert_eq!(
        entries.verify_structure("logic", 5, &index),
        (
            false,
            vec![
                TheoremParsingError::VariableError(
                    0,
                    VariableParsingError::TypeSignatureError(TypeSignatureParsingError::SystemChildWrongKind),
                ),
                TheoremParsingError::DuplicateAssertion,
            ]
        )
    );
    let fine = TheoremBuilderEntries {
        names: vec!["Thm".to_owned()],
        taglines: tagline(),
        descriptions: vec![],
        flag_lists: vec![],
        vars: vec![VariableBuilder { id: "x".to_owned(), type_signature: ground("top") }],
        premises: vec![],
        assertions: vec![formula()],
    };
    assert!(fine.verify_structure("logic", 5, &index).0);
}

fn step(justifications: Vec<ProofJustificationBuilder>, tags: Vec<&str>) -> ProofBuilderElement {
    ProofBuilderElement::Step(ProofBuilderStep {
        meta: ProofBuilderMeta { justifications, tags: tags.into_iter().map(|t| t.to_owned()).collect() },
        formula: formula(),
        end: ".".to_owned(),
        tag: 0,
        id: String::new(),
        href: String::new(),
    })
}

fn by(id: &str) -> ProofJustificationBuilder {
    ProofJustificationBuilder::SystemChild(SystemChildJustificationBuilder { id: id.to_owned() })
}

#[test]
fn proof_justifications_are_checked() {
    let mut index = index();
    let proof = ProofBuilder {
        system_id: "logic".to_owned(),
        theorem_id: "thm".to_owned(),
        serial: 10,
        elements: vec![
            step(vec![by("truth")], vec!["a"]),
            step(vec![ProofJustificationBuilder::Hypothesis(1)], vec!["a"]),
            step(vec![ProofJustificationBuilder::Hypothesis(0)], vec!["b", "c"]),
            step(vec![ProofJustificationBuilder::Hypothesis(2)], vec![]),
            step(vec![by("prop")], vec![]),
            step(vec![by("missing")], vec![]),
            step(vec![], vec![]),
            step(vec![ProofJustificationBuilder::Macro(MacroJustificationBuilder::Definition)], vec![]),
            ProofBuilderElement::Text(TextBuilder::Paragraph(paragraph(vec![ParagraphBuilderElement::Reference(
                ReferenceBuilder::Tag(TagReferenceBuilder { tag: "b".to_owned(), text: None }),
            )]))),
        ],
    };
    assert_eq!(
        proof.verify_structure(&mut index),
        vec![
            ProofParsingError::StepError(1, ProofStepParsingError::TagAlreadyTaken(ProofBuilderStepRef(0))),
            ProofParsingError::StepError(2, ProofStepParsingError::DuplicateTags),
            ProofParsingError::StepError(2, ProofStepParsingError::HypothesisZeroIndex),
            ProofParsingError::StepError(3, ProofStepParsingError::HypothesisIndexOutOfRange),
            ProofParsingError::StepError(4, ProofStepParsingError::SystemChildJustificationWrongKind),
            ProofParsingError::StepError(5, ProofStepParsingError::SystemChildJustificationNotFound),
            ProofParsingError::StepError(6, ProofStepParsingError::MissingJustification),
            ProofParsingError::TextError(
                8,
                TextParsingError::ParagraphError(ParagraphParsingError::ElementError(
                    0,
                    ParagraphElementParsingError::TagReferenceNotFound,
                )),
            ),
        ]
    );
    assert_eq!(index.search_first_proof("logic", "thm"), Some(10));
}

#[test]
fn no_proof_rests_on_itself() {
    let mut index = index();
    let circular = ProofBuilder {
        system_id: "logic".to_owned(),
        theorem_id: "thm".to_owned(),
        serial: 10,
        elements: vec![step(vec![by("thm")], vec![])],
    };
    assert_eq!(
        circular.verify_structure(&mut index),
        vec![ProofParsingError::StepError(0, ProofStepParsingError::TheoremJustificationCircularProof)]
    );
    // A later proof may use the theorem, an earlier one may not.
    let later = ProofBuilder { system_id: "logic".to_owned(), theorem_id: "thm".to_owned(), serial: 12, elements: vec![step(vec![by("thm")], vec![])] };
    assert_eq!(later.verify_structure(&mut index), vec![]);
    let earlier = ProofBuilder { system_id: "logic".to_owned(), theorem_id: "thm".to_owned(), serial: 8, elements: vec![step(vec![by("thm")], vec![])] };
    assert_eq!(
        earlier.verify_structure(&mut index),
        vec![ProofParsingError::StepError(0, ProofStepParsingError::TheoremJustificationUsedBeforeProof)]
    );
}

#[test]
fn unproven_theorems_cannot_justify_steps() {
    let mut index = index();
    let other = SystemChildEntry { kind: SystemChildKind::Theorem, serial: 6, premises: 0 };
    assert!(index.add_system_child("logic", "other", other).is_ok());
    let proof = ProofBuilder { system_id: "logic".to_owned(), theorem_id: "thm".to_owned(), serial: 10, elements: vec![step(vec![by("other")], vec![])] };
    assert_eq!(
        proof.verify_structure(&mut index),
        vec![ProofParsingError::StepError(0, ProofStepParsingError::TheoremJustificationUnproven)]
    );
}

#[test]
fn proofs_need_a_theorem() {
    let mut index = index();
    let orphan = ProofBuilder { system_id: "logic".to_owned(), theorem_id: "nope".to_owned(), serial: 10, elements: vec![] };
    assert_eq!(orphan.verify_structure(&mut index), vec![ProofParsingError::ParentNotFound]);
    let of_axiom = ProofBuilder { system_id: "logic".to_owned(), theorem_id: "truth".to_owned(), serial: 10, elements: vec![] };
    assert_eq!(of_axiom.verify_structure(&mut index), vec![ProofParsingError::ParentNotTheorem]);
    assert_eq!(index.search_first_proof("logic", "truth"), None);
}

const R: ReadableBuilder = ReadableBuilder::Symbol(SymbolBuilderRef(0));
const F: ReadableBuilder = ReadableBuilder::Symbol(SymbolBuilderRef(1));

fn v(i: usize) -> FormulaBuilder {
    FormulaBuilder::Variable(VariableBuilderRef(i))
}

fn rel(a: FormulaBuilder, b: FormulaBuilder) -> FormulaBuilder {
    FormulaBuilder::Infix(R, Box::new(a), Box::new(b))
}

fn shown(formula: FormulaBuilder) -> DisplayFormulaBuilder {
    DisplayFormulaBuilder { display: math(vec![]), formula }
}

fn by_axiom(i: usize) -> DeductableBuilder {
    DeductableBuilder::Axiom(AxiomBuilderRef(i))
}

fn claims(flags: Vec<Flag>, d: DeductableBuilder, premise: Vec<FormulaBuilder>, assertion: FormulaBuilder, table: &mut PropertyTable) -> Vec<FlagCheckingError> {
    let premise: Vec<DisplayFormulaBuilder> = premise.into_iter().map(shown).collect();
    FlagList { raw_list: flags }.verify_formulas(d, &premise, &shown(assertion), table)
}

#[test]
fn property_lists_keep_the_first_claim() {
    let mut list = PropertyList::new();
    assert!(!list.is_reflexive());
    assert_eq!(list.set_reflexive(R, by_axiom(0)), None);
    assert_eq!(list.set_reflexive(R, by_axiom(1)), Some((R, ReadableParsingError::DuplicateReflexive(by_axiom(1)))));
    assert_eq!(list.get_reflexive(), Some(by_axiom(0)));
    assert!(!list.is_preorder());
    assert_eq!(list.set_transitive(R, by_axiom(2)), None);
    assert!(list.is_preorder());
    assert_eq!(list.set_symmetric(R, by_axiom(3)), None);
    assert!(list.is_symmetric());
    assert_eq!(list.get_symmetric(), Some(by_axiom(3)));
    assert_eq!(list.set_function(F, by_axiom(4), R), None);
    assert_eq!(list.set_function(F, by_axiom(5), R), Some((F, ReadableParsingError::DuplicateFunction(R, by_axiom(5)))));
    assert_eq!(list.get_function(R), Some(by_axiom(4)));
    assert_eq!(list.get_function(F), None);
}

#[test]
fn reflexivity_claims_need_x_r_x() {
    let mut table = PropertyTable::new(2, 0);
    assert_eq!(claims(vec![Flag::Reflexive], by_axiom(0), vec![], rel(v(0), v(0)), &mut table), vec![]);
    assert!(table.get(R).is_reflexive());
    assert_eq!(
        claims(vec![Flag::Reflexive], by_axiom(1), vec![], rel(v(0), v(0)), &mut table),
        vec![FlagCheckingError::Readable(R, ReadableParsingError::DuplicateReflexive(by_axiom(1)))]
    );
    assert_eq!(table.get(R).get_reflexive(), Some(by_axiom(0)));
    assert_eq!(
        claims(vec![Flag::Reflexive], by_axiom(2), vec![], rel(v(0), v(1)), &mut table),
        vec![FlagCheckingError::Flag(FlagListParsingError::ReflexivityArgumentMismatch)]
    );
    assert_eq!(
        claims(vec![Flag::Reflexive], by_axiom(2), vec![rel(v(0), v(0))], rel(v(0), v(0)), &mut table),
        vec![FlagCheckingError::Flag(FlagListParsingError::ReflexivityPremiseNotEmpty)]
    );
    let sided = FormulaBuilder::Infix(R, Box::new(FormulaBuilder::Symbol(SymbolBuilderRef(1))), Box::new(v(0)));
    assert_eq!(
        claims(vec![Flag::Reflexive], by_axiom(2), vec![], sided, &mut table),
        vec![FlagCheckingError::Flag(FlagListParsingError::ReflexivityAssertionNotBinary)]
    );
}

#[test]
fn symmetry_claims_need_swapped_sides() {
    let mut table = PropertyTable::new(2, 0);
    assert_eq!(claims(vec![Flag::Symmetric], by_axiom(0), vec![rel(v(0), v(1))], rel(v(1), v(0)), &mut table), vec![]);
    assert!(table.get(R).is_symmetric());
    let mut other = PropertyTable::new(2, 0);
    // Sides that are not swapped are an error, but the property is still recorded.
    assert_eq!(
        claims(vec![Flag::Symmetric], by_axiom(0), vec![rel(v(0), v(1))], rel(v(0), v(1)), &mut other),
        vec![FlagCheckingError::Flag(FlagListParsingError::SymmetryArgumentMismatch)]
    );
    assert!(other.get(R).is_symmetric());
    assert_eq!(
        claims(vec![Flag::Symmetric], by_axiom(1), vec![], rel(v(0), v(1)), &mut other),
        vec![FlagCheckingError::Flag(FlagListParsingError::SymmetryPremiseWrongLength)]
    );
    let by_f = FormulaBuilder::Infix(F, Box::new(v(1)), Box::new(v(0)));
    assert_eq!(
        claims(vec![Flag::Symmetric], by_axiom(1), vec![rel(v(0), v(1))], by_f, &mut other),
        vec![FlagCheckingError::Flag(FlagListParsingError::SymmetrySymbolMismatch)]
    );
}

#[test]
fn transitivity_claims_need_a_chain() {
    let mut table = PropertyTable::new(2, 0);
    assert_eq!(
        claims(vec![Flag::Transitive], by_axiom(0), vec![rel(v(0), v(1)), rel(v(1), v(2))], rel(v(0), v(2)), &mut table),
        vec![]
    );
    assert!(table.get(R).is_transitive());
    assert_eq!(
        claims(vec![Flag::Transitive], by_axiom(1), vec![rel(v(0), v(1)), rel(v(2), v(0))], rel(v(0), v(2)), &mut table),
        vec![FlagCheckingError::Flag(FlagListParsingError::TransitivityPremiseArgumentMismatch)]
    );
    assert_eq!(
        claims(vec![Flag::Transitive], by_axiom(1), vec![rel(v(0), v(1)), rel(v(1), v(2))], rel(v(2), v(0)), &mut table),
        vec![FlagCheckingError::Flag(FlagListParsingError::TransitivityAssertionLeftMismatch)]
    );
    assert_eq!(
        claims(vec![Flag::Transitive], by_axiom(1), vec![rel(v(0), v(1))], rel(v(0), v(1)), &mut table),
        vec![FlagCheckingError::Flag(FlagListParsingError::TransitivityWrongPremiseLength)]
    );
}

fn apply(x: FormulaBuilder) -> FormulaBuilder {
    FormulaBuilder::Prefix(F, Box::new(x))
}

#[test]
fn function_claims_need_a_preorder() {
    let mut table = PropertyTable::new(2, 0);
    let statement = rel(apply(v(0)), apply(v(1)));
    assert_eq!(
        claims(vec![Flag::Function], by_axiom(0), vec![rel(v(0), v(1))], rel(apply(v(0)), apply(v(1))), &mut table),
        vec![FlagCheckingError::Flag(FlagListParsingError::FunctionRelationNotPreorder)]
    );
    assert_eq!(table.claim(R, Claim::Reflexive, by_axiom(1)), None);
    assert_eq!(table.claim(R, Claim::Transitive, by_axiom(2)), None);
    assert_eq!(claims(vec![Flag::Function], by_axiom(0), vec![rel(v(0), v(1))], statement, &mut table), vec![]);
    assert_eq!(table.get(F).get_function(R), Some(by_axiom(0)));
    assert_eq!(
        claims(vec![Flag::Function], by_axiom(3), vec![rel(v(1), v(0))], rel(apply(v(0)), apply(v(1))), &mut table),
        vec![FlagCheckingError::Flag(FlagListParsingError::FunctionHypothesisLeftVarMismatch(0))]
    );
    assert_eq!(
        claims(vec![Flag::Function], by_axiom(3), vec![], rel(apply(v(0)), apply(v(1))), &mut table),
        vec![FlagCheckingError::Flag(FlagListParsingError::FunctionPremiseEmpty)]
    );
}

#[test]
fn one_statement_can_make_a_preorder() {
    // The flags are checked in order: reflexivity, symmetry, transitivity, function.
    let mut table = PropertyTable::new(2, 0);
    let d = DeductableBuilder::Theorem(TheoremBuilderRef(0));
    assert_eq!(
        claims(vec![Flag::Function, Flag::Reflexive], d, vec![], rel(v(0), v(0)), &mut table),
        vec![
            FlagCheckingError::Flag(FlagListParsingError::FunctionPremiseEmpty),
        ]
    );
    assert!(table.get(R).is_reflexive());
    assert_eq!(table.get(R).get_reflexive(), Some(d));
}

use ckproof::builders::justification::{ProofBuilderSmallJustification, ProofBuilderSmallStep};

const G: ReadableBuilder = ReadableBuilder::Symbol(SymbolBuilderRef(2));

fn derived_step(formula: FormulaBuilder) -> ProofBuilderElement {
    ProofBuilderElement::Step(ProofBuilderStep {
        meta: ProofBuilderMeta { justifications: vec![], tags: vec![] },
        formula: shown(formula),
        end: ".".to_owned(),
        tag: 0,
        id: String::new(),
        href: String::new(),
    })
}

/// A table where `R` is a preorder claimed by statements 1 and 2, symmetric by 3, and both `F`
/// and `G` are functions over it by statements 5 and 6.
fn preorder_table() -> PropertyTable {
    let mut table = PropertyTable::new(3, 0);
    assert_eq!(table.claim(R, Claim::Reflexive, by_axiom(1)), None);
    assert_eq!(table.claim(R, Claim::Transitive, by_axiom(2)), None);
    assert_eq!(table.claim(R, Claim::Symmetric, by_axiom(3)), None);
    assert_eq!(table.claim(F, Claim::Function(R), by_axiom(5)), None);
    assert_eq!(table.claim(G, Claim::Function(R), by_axiom(6)), None);
    table
}

fn is_step(step: &ProofBuilderSmallStep, d: DeductableBuilder, left: &FormulaBuilder, right: &FormulaBuilder) -> bool {
    let justified = matches!(step.justification, ProofBuilderSmallJustification::Deductable(x) if x == d);
    let shaped = match &step.formula {
        FormulaBuilder::ReadableApplication(r, inputs) => {
            *r == R && inputs.len() == 2 && inputs[0].equals(left) && inputs[1].equals(right)
        }
        _ => false,
    };
    justified && shaped
}

fn g(a: FormulaBuilder, b: FormulaBuilder) -> FormulaBuilder {
    FormulaBuilder::Infix(G, Box::new(a), Box::new(b))
}

#[test]
fn function_application_uses_what_was_derived() {
    let table = preorder_table();
    let prev = vec![derived_step(rel(apply(v(0)), apply(v(1))))];
    let steps = MacroJustificationBuilder::build_function_application_iter(&apply(v(0)), &apply(v(1)), R, &prev, &table);
    assert!(steps.is_empty());
}

#[test]
fn function_application_applies_the_function() {
    let table = preorder_table();
    let prev = vec![derived_step(rel(v(0), v(1)))];
    let steps = MacroJustificationBuilder::build_function_application_iter(&apply(v(0)), &apply(v(1)), R, &prev, &table);
    assert_eq!(steps.len(), 1);
    assert!(is_step(&steps[0], by_axiom(5), &apply(v(0)), &apply(v(1))));
}

#[test]
fn function_application_uses_symmetry_and_reflexivity() {
    let table = preorder_table();
    let prev = vec![ProofBuilderElement::Text(TextBuilder::Sublist(SublistBuilder { items: vec![] })), derived_step(rel(v(1), v(0)))];
    let by_symmetry = MacroJustificationBuilder::build_function_application_iter(&v(0), &v(1), R, &prev, &table);
    assert_eq!(by_symmetry.len(), 1);
    assert!(is_step(&by_symmetry[0], by_axiom(3), &v(0), &v(1)));
    let by_reflexivity = MacroJustificationBuilder::build_function_application_iter(&apply(v(2)), &apply(v(2)), R, &prev, &table);
    assert_eq!(by_reflexivity.len(), 1);
    assert!(is_step(&by_reflexivity[0], by_axiom(1), &apply(v(2)), &apply(v(2))));
}

#[test]
fn function_application_works_through_infix_operators() {
    let table = preorder_table();
    let prev = vec![derived_step(rel(v(0), v(1)))];
    let left = g(v(0), v(2));
    let right = g(v(1), v(2));
    let steps = MacroJustificationBuilder::build_function_application_iter(&left, &right, R, &prev, &table);
    assert_eq!(steps.len(), 2);
    assert!(is_step(&steps[0], by_axiom(1), &v(2), &v(2)));
    assert!(is_step(&steps[1], by_axiom(6), &left, &right));
    let whole = MacroJustificationBuilder::FunctionApplication.build_small_steps(&rel(left, right), &prev, &table).unwrap();
    assert_eq!(whole.len(), 2);
    let unfolded = MacroJustificationBuilder::Definition.build_small_steps(&v(4), &prev, &table).unwrap();
    assert_eq!(unfolded.len(), 1);
    assert!(matches!(unfolded[0].justification, ProofBuilderSmallJustification::Definition));
    assert!(unfolded[0].formula.equals(&v(4)));
}

use ckproof::builders::directory::{
    BibliographyBuilderIndex, LocalBibliographyBuilderIndex, LocalBibliographyBuilderRef, StringMap,
    SystemBuilderRef,
};

#[test]
fn string_maps_bind_and_rebind() {
    let mut map: StringMap<usize> = StringMap::new();
    assert_eq!(map.get("a"), None);
    map.insert("a", 1);
    map.insert("b", 2);
    map.insert("a", 3);
    assert_eq!(map.get("a"), Some(3));
    assert_eq!(map.get("b"), Some(2));
    assert_eq!(map.entries.len(), 2);
}

#[test]
fn tag_index_reports_the_step_a_tag_named() {
    let mut tags = TagIndex::new();
    assert_eq!(tags.add_tag("t", ProofBuilderStepRef(1)), None);
    assert_eq!(tags.add_tag("t", ProofBuilderStepRef(4)), Some(ProofBuilderStepRef(1)));
    assert_eq!(tags.search("t"), Some(ProofBuilderStepRef(4)));
    assert_eq!(tags.search("u"), None);
}

#[test]
fn bibliography_keys_are_taken_once() {
    let mut index = BibliographyBuilderIndex::new();
    assert_eq!(index.add_entry("knuth", BibliographyBuilderRef(0)), None);
    assert_eq!(index.add_entry("knuth", BibliographyBuilderRef(1)), Some(BibliographyBuilderRef(0)));
    assert_eq!(index.search_key("knuth"), Some(BibliographyBuilderRef(0)));
    assert_eq!(index.search_key("lamport"), None);
}

#[test]
fn local_bibliography_numbers_cited_entries() {
    let cited = vec![BibliographyBuilderRef(7), BibliographyBuilderRef(3), BibliographyBuilderRef(7)];
    let local = LocalBibliographyBuilderIndex::new(&cited);
    assert_eq!(local.index(BibliographyBuilderRef(3)), LocalBibliographyBuilderRef(1));
    assert_eq!(local.index(BibliographyBuilderRef(7)), LocalBibliographyBuilderRef(2));
}

#[test]
fn builder_references_finish_as_block_references() {
    assert_eq!(SystemBuilderRef(3).finish().get(), 3);
    assert_eq!(by_axiom(2), DeductableBuilder::Axiom(AxiomBuilderRef(2)));
    assert_eq!(AxiomBuilderRef(5).finish().get(), 5);
    assert_eq!(ProofBuilderStepRef::new(4), ProofBuilderStepRef(4));
}

use ckproof::builders::structure::{AxiomBuilder, SymbolBuilder};
use ckproof::deduction::directory::{SymbolRef, SystemRef, TypeRef, VariableRef};
use ckproof::deduction::language::{Formula, TypeSignature};
use ckproof::document::structure::BlockLocation;

#[test]
fn blocks_become_checkable_by_place() {
    let ground = |id: &str| TypeSignatureBuilder::Ground(TypeSignatureBuilderGround { id: id.to_owned() });
    let types = vec![("sets".to_owned(), "Set".to_owned()), ("logic".to_owned(), "Bool".to_owned())];
    let symbols = vec![4, 1];
    let location = BlockLocation { block: 0, page: 0, chapter: 0, book: 0, serial: 9 };
    let block = AxiomBuilder {
        id: "id".to_owned(),
        system_id: "logic".to_owned(),
        location,
        entries: AxiomBuilderEntries {
            names: vec![],
            taglines: vec![],
            descriptions: vec![],
            flag_lists: vec![],
            vars: vec![VariableBuilder { id: "p".to_owned(), type_signature: ground("Bool") }],
            premises: vec![vec![shown(FormulaBuilder::Variable(VariableBuilderRef(0)))]],
            assertions: vec![formula()],
        },
        href: String::new(),
    };
    let checked = block.checkable(SystemRef(2), &types, &symbols, &vec![]).unwrap();
    assert_eq!(checked.id, "id");
    assert_eq!(checked.system_ref, SystemRef(2));
    assert_eq!(checked.local_directory.vars.len(), 1);
    assert!(checked.local_directory.vars[0].type_signature.equals(&TypeSignature::Ground(TypeRef(1))));
    assert!(checked.premise[0].equals(&Formula::Variable(VariableRef(0))));
    // The symbol of serial number 1 is the second symbol of the document.
    assert!(checked.assertion.equals(&Formula::Symbol(SymbolRef(1))));
    // A type of another system is not found.
    let elsewhere = SymbolBuilder {
        id: "s".to_owned(),
        system_id: "sets".to_owned(),
        location,
        entries: SymbolBuilderEntries {
            names: vec![],
            taglines: vec![],
            descriptions: vec![],
            type_signatures: vec![ground("Bool")],
            reads: vec![],
            displays: vec![],
        },
        href: String::new(),
    };
    assert!(elsewhere.checkable(SystemRef(0), &types).is_none());
}

#[test]
fn small_steps_become_checkable_by_place() {
    let step = ProofBuilderSmallStep {
        justification: ProofBuilderSmallJustification::Deductable(DeductableBuilder::Theorem(TheoremBuilderRef(8))),
        formula: FormulaBuilder::Symbol(SymbolBuilderRef(1)),
    };
    let checked = step.checkable(&vec![], &vec![2, 8], &vec![1], &vec![]).unwrap();
    assert!(matches!(
        checked.justification,
        ckproof::deduction::system::ProofJustification::Theorem(ckproof::deduction::directory::TheoremRef(1))
    ));
    assert!(checked.formula.equals(&Formula::Symbol(SymbolRef(0))));
    let premise = ProofBuilderSmallStep {
        justification: ProofBuilderSmallJustification::Hypothesis(2),
        formula: FormulaBuilder::Symbol(SymbolBuilderRef(1)),
    };
    let checked = premise.checkable(&vec![], &vec![], &vec![1], &vec![]).unwrap();
    assert!(matches!(
        checked.justification,
        ckproof::deduction::system::ProofJustification::Hypothesis(ckproof::deduction::directory::HypothesisRef(1))
    ));
    // An axiom that is not listed.
    let unknown = ProofBuilderSmallStep {
        justification: ProofBuilderSmallJustification::Deductable(DeductableBuilder::Axiom(AxiomBuilderRef(3))),
        formula: FormulaBuilder::Symbol(SymbolBuilderRef(1)),
    };
    assert!(unknown.checkable(&vec![], &vec![], &vec![1], &vec![]).is_none());
}

fn bool_type() -> TypeSignature {
    TypeSignature::Ground(TypeRef(0))
}

#[test]
fn definitions_become_checkable_with_the_type_of_their_body() {
    let ground = |id: &str| TypeSignatureBuilder::Ground(TypeSignatureBuilderGround { id: id.to_owned() });
    let dir = ckproof::deduction::directory::CheckableDirectory::new(
        vec![ckproof::deduction::system::System::new("logic".to_owned())],
        vec![ckproof::deduction::language::Type::new("Bool".to_owned(), SystemRef(0))],
        vec![
            ckproof::deduction::language::Symbol::new(
                "implies".to_owned(),
                SystemRef(0),
                TypeSignature::Compound(
                    Box::new(bool_type()),
                    Box::new(TypeSignature::Compound(Box::new(bool_type()), Box::new(bool_type()))),
                ),
            ),
            ckproof::deduction::language::Symbol::new("bot".to_owned(), SystemRef(0), bool_type()),
        ],
        vec![],
        vec![],
        vec![],
        vec![],
    );
    let neg = ckproof::builders::structure::DefinitionBuilder {
        id: "neg".to_owned(),
        system_id: "logic".to_owned(),
        location: BlockLocation { block: 0, page: 0, chapter: 0, book: 0, serial: 12 },
        entries: DefinitionBuilderEntries {
            names: vec![],
            taglines: vec![],
            descriptions: vec![],
            inputs: vec![vec![VariableBuilder { id: "p".to_owned(), type_signature: ground("Bool") }]],
            reads: vec![],
            displays: vec![],
            expansions: vec![shown(FormulaBuilder::Infix(
                ReadableBuilder::Symbol(SymbolBuilderRef(7)),
                Box::new(FormulaBuilder::Variable(VariableBuilderRef(0))),
                Box::new(FormulaBuilder::Symbol(SymbolBuilderRef(8))),
            ))],
        },
        href: String::new(),
    };
    let types = vec![("logic".to_owned(), "Bool".to_owned())];
    let checked = neg.checkable(SystemRef(0), &types, &vec![7, 8], &vec![], &dir).unwrap();
    assert!(checked.type_signature.equals(&bool_type()));
    assert_eq!(checked.inputs, vec![VariableRef(0)]);
    assert!(checked.verify(&dir).is_empty());
}
