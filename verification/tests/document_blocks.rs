use ckproof::builders::bibliography::{BibliographyBuilder, BibliographyBuilderEntry, LocalBibliographyBuilder};
use ckproof::builders::blocks::{
    HeadingBuilder, ListBuilder, QuoteBuilder, QuoteValueBuilder, SubHeadingBuilder, TableBuilder, TableBuilderRow,
    TextBlockBuilder, TodoBuilder,
};
use ckproof::builders::directory::BibliographyBuilderRef;
use ckproof::builders::errors::{
    BibliographyParsingError, BookParsingError, ChapterParsingError, ParagraphElementParsingError,
    ParagraphParsingError, ParsingError, ParsingErrorContext, QuoteParsingError, QuoteValueParsingError,
    RawCitationParsingError, SystemParsingError, TableParsingError, TextParsingError, TypeParsingError,
};
use ckproof::builders::index::{BuilderIndex, SystemChildEntry, SystemChildIndexError, SystemChildKind};
use ckproof::builders::language::TypeBuilderEntries;
use ckproof::builders::structure::{
    BlockBuilder, BookBuilder, ChapterBuilder, PageBuilder, SystemBuilder, TheoremBuilder, TypeBuilder,
};
use ckproof::builders::system::{SystemBuilderEntries, TheoremBuilderEntries};
use ckproof::builders::text::{
    CitationBuilder, HyperlinkBuilder, ParagraphBuilder, ParagraphBuilderElement, RawCitationBuilder, ReferenceBuilder,
    SystemReferenceBuilder, TextBuilder, UnformattedBuilder, UnformattedBuilderElement,
};
use ckproof::document::structure::BlockLocation;
use ckproof::document::text::{BareElement, BareText, HeadingLevel};

fn word(w: &str) -> ParagraphBuilderElement {
    ParagraphBuilderElement::Unformatted(UnformattedBuilderElement::BareElement(BareElement::Word(w.to_owned())))
}

fn cite(key: &str) -> ParagraphBuilderElement {
    ParagraphBuilderElement::Citation(CitationBuilder { bib_key: key.to_owned() })
}

fn system_ref(id: &str) -> ParagraphBuilderElement {
    ParagraphBuilderElement::Reference(ReferenceBuilder::System(SystemReferenceBuilder { id: id.to_owned(), text: None }))
}

fn paragraph(elements: Vec<ParagraphBuilderElement>) -> ParagraphBuilder {
    ParagraphBuilder { elements }
}

fn at(serial: usize) -> BlockLocation {
    BlockLocation { block: serial, page: 0, chapter: 0, book: 0, serial }
}

/// An index with the system `logic` and the bibliography keys `knuth` (entry 0) and `church`
/// (entry 1).
fn index() -> BuilderIndex {
    let mut index = BuilderIndex::new();
    assert_eq!(index.add_system("logic", 0), None);
    assert_eq!(index.add_bib_ref("knuth", BibliographyBuilderRef(0)), None);
    assert_eq!(index.add_bib_ref("church", BibliographyBuilderRef(1)), None);
    index
}

#[test]
fn list_items_are_checked_in_order() {
    let index = index();
    let list = ListBuilder {
        ordered: true,
        items: vec![paragraph(vec![word("a")]), paragraph(vec![system_ref("sets")]), paragraph(vec![cite("gone")])],
        location: at(3),
    };
    assert_eq!(
        list.verify_structure(&index),
        vec![
            (1, ParagraphParsingError::ElementError(0, ParagraphElementParsingError::SystemReferenceIdNotFound)),
            (2, ParagraphParsingError::ElementError(0, ParagraphElementParsingError::CitationKeyNotFound)),
        ]
    );
}

#[test]
fn table_cells_are_named_by_row_and_cell() {
    let index = index();
    let row = |cells: Vec<ParagraphBuilder>| TableBuilderRow { cells };
    let table = TableBuilder {
        location: at(4),
        head: Some(vec![row(vec![paragraph(vec![word("h")]), paragraph(vec![system_ref("x")])])]),
        body: None,
        foot: Some(vec![row(vec![paragraph(vec![ParagraphBuilderElement::EmBegin])])]),
        caption: Some(paragraph(vec![system_ref("y")])),
    };
    let missing = ParagraphElementParsingError::SystemReferenceIdNotFound;
    assert_eq!(
        table.verify_structure(&index),
        vec![
            TableParsingError::CellError(0, 1, ParagraphParsingError::ElementError(0, missing)),
            TableParsingError::CellError(1, 0, ParagraphParsingError::UnclosedEm),
            TableParsingError::CaptionError(ParagraphParsingError::ElementError(0, missing)),
        ]
    );
}

fn quote_value(key: &str) -> QuoteValueBuilder {
    QuoteValueBuilder {
        bib_key: key.to_owned(),
        quote: UnformattedBuilder { elements: vec![UnformattedBuilderElement::BareElement(BareElement::Word("q".to_owned()))] },
    }
}

#[test]
fn quotes_need_known_keys() {
    let index = index();
    let good = QuoteBuilder { location: at(5), original: Some(quote_value("church")), value: quote_value("knuth") };
    assert_eq!(good.verify_structure(&index), vec![]);
    assert_eq!(good.bib_refs(&index), vec![BibliographyBuilderRef(1), BibliographyBuilderRef(0)]);
    let bad = QuoteBuilder { location: at(5), original: Some(quote_value("x")), value: quote_value("y") };
    assert_eq!(
        bad.verify_structure(&index),
        vec![
            QuoteParsingError::OriginalError(QuoteValueParsingError::BibKeyNotFound),
            QuoteParsingError::ValueError(QuoteValueParsingError::BibKeyNotFound),
        ]
    );
    let translated = QuoteBuilder { location: at(5), original: None, value: quote_value("z") };
    assert_eq!(
        translated.verify_structure(&index),
        vec![QuoteParsingError::ValueError(QuoteValueParsingError::BibKeyNotFound)]
    );
}

#[test]
fn notes_check_their_texts() {
    let index = index();
    let todo = TodoBuilder {
        elements: vec![
            TextBuilder::Paragraph(paragraph(vec![word("fine")])),
            TextBuilder::Paragraph(paragraph(vec![ParagraphBuilderElement::UnicornVomitBegin])),
        ],
    };
    assert_eq!(
        todo.verify_structure(&index),
        vec![(1, TextParsingError::ParagraphError(ParagraphParsingError::UnclosedUnicornVomit))]
    );
}

fn link(url: &str) -> UnformattedBuilderElement {
    UnformattedBuilderElement::Hyperlink(HyperlinkBuilder {
        url: url.to_owned(),
        contents: BareText::new(vec![BareElement::Word("link".to_owned())]),
    })
}

#[test]
fn headings_need_valid_links() {
    let heading = HeadingBuilder {
        subheadings: vec![
            SubHeadingBuilder { level: HeadingLevel::L1, contents: vec![link("https://example.org/")] },
            SubHeadingBuilder {
                level: HeadingLevel::L2,
                contents: vec![UnformattedBuilderElement::BareElement(BareElement::Whitespace), link("not a url")],
            },
        ],
    };
    assert_eq!(heading.verify_structure(), vec![(1, 1)]);
    assert!(heading.bib_refs().is_empty());
}

#[test]
fn blocks_cite_in_order() {
    let index = index();
    let list = ListBuilder {
        ordered: false,
        items: vec![paragraph(vec![cite("church"), word("and"), cite("knuth")]), paragraph(vec![cite("church")])],
        location: at(1),
    };
    assert_eq!(
        list.bib_refs(&index),
        vec![BibliographyBuilderRef(1), BibliographyBuilderRef(0), BibliographyBuilderRef(1)]
    );
    let table = TableBuilder {
        location: at(2),
        head: None,
        body: Some(vec![TableBuilderRow { cells: vec![paragraph(vec![cite("knuth")])] }]),
        foot: None,
        caption: Some(paragraph(vec![cite("church")])),
    };
    assert_eq!(table.bib_refs(&index), vec![BibliographyBuilderRef(0), BibliographyBuilderRef(1)]);
    let text = TextBlockBuilder { location: at(3), text: TextBuilder::Paragraph(paragraph(vec![cite("knuth")])) };
    assert_eq!(text.bib_refs(&index), vec![BibliographyBuilderRef(0)]);
    assert_eq!(text.verify_structure(&index), (true, vec![]));
}

#[test]
fn local_bibliography_numbers_entries_by_first_citation() {
    let r = BibliographyBuilderRef;
    let citations = vec![r(3), r(1), r(3), r(2), r(1)];
    let (local, numbers) = LocalBibliographyBuilder::new(&citations);
    assert_eq!(local.entries, vec![r(3), r(1), r(2)]);
    assert_eq!(numbers, vec![0, 1, 0, 2, 1]);

    let (empty, none) = LocalBibliographyBuilder::new(&vec![]);
    assert!(empty.entries.is_empty());
    assert!(none.is_empty());
}

fn bib_entry(id: &str, titles: usize, index: usize) -> BibliographyBuilderEntry {
    let title = UnformattedBuilder { elements: vec![UnformattedBuilderElement::BareElement(BareElement::Word("t".to_owned()))] };
    BibliographyBuilderEntry {
        id: id.to_owned(),
        raw_citation: RawCitationBuilder { authors: vec![], titles: (0..titles).map(|_| title_copy(&title)).collect(), containers: vec![] },
        index,
    }
}

fn title_copy(t: &UnformattedBuilder) -> UnformattedBuilder {
    let _ = t;
    UnformattedBuilder { elements: vec![UnformattedBuilderElement::BareElement(BareElement::Word("t".to_owned()))] }
}

#[test]
fn bibliography_keys_go_to_the_first_entry() {
    let bib = BibliographyBuilder { entries: vec![bib_entry("a", 1, 0), bib_entry("b", 1, 1), bib_entry("a", 1, 2)] };
    let mut index = BuilderIndex::new();
    let errors = bib.build_index(&mut index);
    assert_eq!(errors, vec![(2, BibliographyParsingError::KeyAlreadyTaken(BibliographyBuilderRef(0)))]);
    assert_eq!(index.search_bib_ref("a"), Some(BibliographyBuilderRef(0)));
    assert_eq!(index.search_bib_ref("b"), Some(BibliographyBuilderRef(1)));
    assert_eq!(bib.entries[1].id(), "b");
}

#[test]
fn bibliography_entries_need_a_title() {
    let bib = BibliographyBuilder { entries: vec![bib_entry("a", 1, 0), bib_entry("b", 0, 1)] };
    assert_eq!(
        bib.verify_structure(),
        vec![(1, BibliographyParsingError::RawCitationError(RawCitationParsingError::MissingTitle))]
    );
    assert_eq!(bib.entries[0].verify_structure(), vec![]);
}

fn system_block(id: &str, serial: usize) -> BlockBuilder {
    BlockBuilder::System(SystemBuilder {
        id: id.to_owned(),
        location: at(serial),
        entries: SystemBuilderEntries {
            names: vec!["Logic".to_owned()],
            taglines: vec![paragraph(vec![cite("knuth")])],
            descriptions: vec![],
        },
        href: String::new(),
    })
}

fn type_block(id: &str, system: &str, serial: usize) -> BlockBuilder {
    BlockBuilder::Type(TypeBuilder {
        id: id.to_owned(),
        system_id: system.to_owned(),
        location: at(serial),
        entries: TypeBuilderEntries { names: vec![], taglines: vec![paragraph(vec![word("t")])], descriptions: vec![] },
    })
}

fn theorem_block(id: &str, system: &str, serial: usize) -> BlockBuilder {
    BlockBuilder::Theorem(TheoremBuilder {
        id: id.to_owned(),
        system_id: system.to_owned(),
        location: at(serial),
        entries: TheoremBuilderEntries {
            names: vec![],
            taglines: vec![],
            descriptions: vec![],
            flag_lists: vec![],
            vars: vec![],
            premises: vec![vec![], vec![]],
            assertions: vec![],
        },
        href: String::new(),
    })
}

#[test]
fn blocks_are_indexed_in_document_order() {
    let mut index = BuilderIndex::new();
    let page = PageBuilder {
        id: "p".to_owned(),
        name: "P".to_owned(),
        blocks: vec![
            type_block("early", "logic", 0),
            system_block("logic", 1),
            type_block("prop", "logic", 2),
            type_block("prop", "logic", 3),
            system_block("logic", 4),
            theorem_block("thm", "logic", 5),
        ],
        href: String::new(),
    };
    let mut errors = Vec::new();
    page.build_index(&mut index, &mut errors);
    assert_eq!(
        errors,
        vec![
            ParsingError::SystemChildError(0, SystemChildIndexError::ParentNotFound),
            ParsingError::SystemChildError(
                3,
                SystemChildIndexError::IdAlreadyTaken(SystemChildEntry { kind: SystemChildKind::Type, serial: 2, premises: 0 })
            ),
            ParsingError::SystemError(4, SystemParsingError::IdAlreadyTaken(1)),
        ]
    );
    assert!(index.search_system("logic"));
    assert_eq!(
        index.search_system_child("logic", "prop"),
        Some(SystemChildEntry { kind: SystemChildKind::Type, serial: 2, premises: 0 })
    );
    assert_eq!(
        index.search_system_child("logic", "thm"),
        Some(SystemChildEntry { kind: SystemChildKind::Theorem, serial: 5, premises: 0 })
    );
    assert_eq!(index.search_system_child("logic", "early"), None);
}

#[test]
fn a_single_block_is_indexed() {
    let mut index = BuilderIndex::new();
    assert_eq!(system_block("s", 0).build_index(&mut index), None);
    assert_eq!(type_block("t", "s", 1).build_index(&mut index), None);
    assert_eq!(
        type_block("u", "other", 2).build_index(&mut index),
        Some(ParsingError::SystemChildError(2, SystemChildIndexError::ParentNotFound))
    );
    let text = BlockBuilder::Text(TextBlockBuilder { location: at(3), text: TextBuilder::Paragraph(paragraph(vec![])) });
    assert_eq!(text.build_index(&mut index), None);
}

#[test]
fn books_and_chapters_index_their_pages() {
    let page = |blocks: Vec<BlockBuilder>| PageBuilder { id: "p".to_owned(), name: "P".to_owned(), blocks, href: String::new() };
    let chapter = ChapterBuilder {
        id: "c".to_owned(),
        name: "C".to_owned(),
        tagline: paragraph(vec![system_ref("nowhere")]),
        pages: vec![page(vec![system_block("logic", 0)]), page(vec![type_block("prop", "logic", 1)])],
        href: String::new(),
    };
    let book = BookBuilder {
        id: "b".to_owned(),
        name: "B".to_owned(),
        tagline: paragraph(vec![ParagraphBuilderElement::EmEnd]),
        chapters: vec![chapter],
        href: String::new(),
    };
    let mut index = BuilderIndex::new();
    let mut errors = Vec::new();
    book.build_index(&mut index, &mut errors);
    assert!(errors.is_empty());
    assert!(index.search_system_child("logic", "prop").is_some());

    assert_eq!(index.add_bib_ref("knuth", BibliographyBuilderRef(0)), None);
    let mut errors = Vec::new();
    book.verify_structure(0, &mut index, &mut errors);
    assert_eq!(
        errors,
        vec![
            ParsingError::BookError(
                0,
                BookParsingError::TaglineError(ParagraphParsingError::ElementError(
                    0,
                    ParagraphElementParsingError::UnexpectedEmEnd
                ))
            ),
            ParsingError::ChapterError(
                0,
                ChapterParsingError::TaglineError(ParagraphParsingError::ElementError(
                    0,
                    ParagraphElementParsingError::SystemReferenceIdNotFound
                ))
            ),
            ParsingError::TypeError(1, TypeParsingError::MissingName),
        ]
    );
}

#[test]
fn block_checks_carry_the_serial_number() {
    let mut index = index();
    let list = BlockBuilder::List(ListBuilder { ordered: false, items: vec![paragraph(vec![cite("nope")])], location: at(7) });
    assert_eq!(
        list.verify_structure(&mut index),
        vec![ParsingError::ListItemError(
            7,
            0,
            ParagraphParsingError::ElementError(0, ParagraphElementParsingError::CitationKeyNotFound)
        )]
    );
    let heading = BlockBuilder::Heading(HeadingBuilder {
        subheadings: vec![SubHeadingBuilder { level: HeadingLevel::L3, contents: vec![link("::")] }],
    });
    assert_eq!(heading.verify_structure(&mut index), vec![ParsingError::UrlError(0, 0)]);
    assert_eq!(system_block("logic", 0).verify_structure(&mut index), vec![]);
}

#[test]
fn pages_gather_their_citations() {
    let index = index();
    let page = PageBuilder {
        id: "p".to_owned(),
        name: "P".to_owned(),
        blocks: vec![
            system_block("logic", 0),
            BlockBuilder::Text(TextBlockBuilder {
                location: at(1),
                text: TextBuilder::Paragraph(paragraph(vec![cite("church"), cite("knuth")])),
            }),
        ],
        href: String::new(),
    };
    let (local, numbers) = page.build_local_bib(&index);
    assert_eq!(local.entries, vec![BibliographyBuilderRef(0), BibliographyBuilderRef(1)]);
    assert_eq!(numbers, vec![0, 1, 0]);
}

#[test]
fn error_context_collects() {
    let mut context = ParsingErrorContext::new();
    assert!(!context.error_found());
    context.err(ParsingError::UrlError(0, 1));
    assert!(context.error_found());
    assert_eq!(context.errors, vec![ParsingError::UrlError(0, 1)]);
}

use ckproof::builders::directory::{DefinitionBuilderRef, SymbolBuilderRef};
use ckproof::builders::errors::ReadableParsingError;
use ckproof::builders::language::{
    DefinitionBuilderEntries, ReadBuilder, ReadOperator, ReadSignature, ReadStyle, ReadableBuilder,
    SymbolBuilderEntries, TypeSignatureBuilder, TypeSignatureBuilderGround, VariableBuilder,
};
use ckproof::builders::structure::{DefinitionBuilder, ManifestBuilder, SymbolBuilder};

fn ground(id: &str) -> TypeSignatureBuilder {
    TypeSignatureBuilder::Ground(TypeSignatureBuilderGround { id: id.to_owned() })
}

fn arrow(input: TypeSignatureBuilder, output: TypeSignatureBuilder) -> TypeSignatureBuilder {
    TypeSignatureBuilder::Compound(Box::new(input), Box::new(output))
}

fn and_read() -> ReadBuilder {
    ReadBuilder { style: ReadStyle::Infix, operator: ReadOperator::And }
}

fn symbol(id: &str, serial: usize, reads: Vec<ReadBuilder>) -> SymbolBuilder {
    SymbolBuilder {
        id: id.to_owned(),
        system_id: "logic".to_owned(),
        location: at(serial),
        entries: SymbolBuilderEntries {
            names: vec!["and".to_owned()],
            taglines: vec![paragraph(vec![word("t")])],
            descriptions: vec![],
            type_signatures: vec![arrow(ground("Bool"), arrow(ground("Bool"), ground("Bool")))],
            reads,
            displays: vec![],
        },
        href: String::new(),
    }
}

#[test]
fn symbols_add_their_operators_once() {
    let mut index = BuilderIndex::new();
    assert_eq!(index.add_system("logic", 0), None);
    let page = PageBuilder {
        id: "p".to_owned(),
        name: "P".to_owned(),
        blocks: vec![
            BlockBuilder::Symbol(symbol("and", 1, vec![and_read()])),
            BlockBuilder::Symbol(symbol("plain", 2, vec![])),
            BlockBuilder::Symbol(symbol("also", 3, vec![and_read()])),
        ],
        href: String::new(),
    };
    let mut errors = Vec::new();
    page.build_operators(&mut index, &mut errors);
    assert_eq!(
        errors,
        vec![ParsingError::ReadableError(
            ReadableBuilder::Symbol(SymbolBuilderRef(3)),
            ReadableParsingError::IdAlreadyTaken(ReadableBuilder::Symbol(SymbolBuilderRef(1)))
        )]
    );
    let b = ground("Bool");
    let found = index.search_operator("logic", &ReadSignature { read: and_read(), inputs: vec![&b, &b] });
    assert_eq!(found.unwrap().0, ReadableBuilder::Symbol(SymbolBuilderRef(1)));
}

#[test]
fn read_signatures_come_from_types_and_inputs() {
    let s = symbol("and", 1, vec![and_read()]);
    let sig = s.read_signature().unwrap();
    assert_eq!(sig.read, and_read());
    assert_eq!(sig.inputs.len(), 2);
    assert!(sig.inputs[0].same_as(&ground("Bool")));
    assert!(symbol("x", 2, vec![]).read_signature().is_none());

    let d = DefinitionBuilder {
        id: "imp".to_owned(),
        system_id: "logic".to_owned(),
        location: at(4),
        entries: DefinitionBuilderEntries {
            names: vec![],
            taglines: vec![],
            descriptions: vec![],
            inputs: vec![vec![
                VariableBuilder { id: "a".to_owned(), type_signature: ground("Bool") },
                VariableBuilder { id: "n".to_owned(), type_signature: ground("Nat") },
            ]],
            reads: vec![ReadBuilder { style: ReadStyle::Infix, operator: ReadOperator::Implies }],
            displays: vec![],
            expansions: vec![],
        },
        href: String::new(),
    };
    let sig = d.read_signature().unwrap();
    assert!(sig.inputs[1].same_as(&ground("Nat")));
    let ty = d.type_signature(&ground("Bool"));
    assert!(ty.same_as(&arrow(ground("Bool"), arrow(ground("Nat"), ground("Bool")))));

    let mut index = BuilderIndex::new();
    assert_eq!(index.add_system("logic", 0), None);
    assert_eq!(d.build_operator(&ground("Bool"), &mut index), None);
    let b = ground("Bool");
    let n = ground("Nat");
    let read = ReadBuilder { style: ReadStyle::Infix, operator: ReadOperator::Implies };
    let (found, found_type) = index.search_operator("logic", &ReadSignature { read, inputs: vec![&b, &n] }).unwrap();
    assert_eq!(found, ReadableBuilder::Definition(DefinitionBuilderRef(4)));
    assert!(found_type.same_as(&ty));
    assert_eq!(
        d.build_operator(&ground("Nat"), &mut index),
        Some(ParsingError::ReadableError(
            ReadableBuilder::Definition(DefinitionBuilderRef(4)),
            ReadableParsingError::IdAlreadyTaken(ReadableBuilder::Definition(DefinitionBuilderRef(4)))
        ))
    );
}

#[test]
fn signatures_extend_and_list_inputs() {
    let f = ground("C").extend(vec![ground("A"), ground("B")]);
    assert!(f.same_as(&arrow(ground("A"), arrow(ground("B"), ground("C")))));
    let inputs = f.inputs();
    assert_eq!(inputs.len(), 2);
    assert!(inputs[1].same_as(&ground("B")));
    assert!(f.duplicate().same_as(&f));
    assert!(ground("C").extend(vec![]).same_as(&ground("C")));
}

fn library(books: Vec<BookBuilder>, bibliography: Option<BibliographyBuilder>) -> ManifestBuilder {
    ManifestBuilder { books, bibliography }
}

fn one_page_book(blocks: Vec<BlockBuilder>) -> BookBuilder {
    BookBuilder {
        id: "b".to_owned(),
        name: "B".to_owned(),
        tagline: paragraph(vec![word("b")]),
        chapters: vec![ChapterBuilder {
            id: "c".to_owned(),
            name: "C".to_owned(),
            tagline: paragraph(vec![word("c")]),
            pages: vec![PageBuilder { id: "p".to_owned(), name: "P".to_owned(), blocks, href: String::new() }],
            href: String::new(),
        }],
        href: String::new(),
    }
}

#[test]
fn building_stops_at_the_first_stage_with_errors() {
    // Indexing fails: the type comes before its system; the checks are not run.
    let broken = library(vec![one_page_book(vec![type_block("prop", "logic", 0), system_block("logic", 1)])], None);
    match broken.build() {
        Err(errors) => assert_eq!(errors, vec![ParsingError::SystemChildError(0, SystemChildIndexError::ParentNotFound)]),
        Ok(_) => panic!("indexing should fail"),
    }

    // Indexing passes, the checks fail: the system cites a key that the bibliography lacks.
    let uncited = library(vec![one_page_book(vec![system_block("logic", 0)])], None);
    match uncited.build() {
        Err(errors) => assert_eq!(
            errors,
            vec![ParsingError::SystemError(
                0,
                SystemParsingError::TaglineParsingError(ParagraphParsingError::ElementError(
                    0,
                    ParagraphElementParsingError::CitationKeyNotFound
                ))
            )]
        ),
        Ok(_) => panic!("checking should fail"),
    }

    // Both pass.
    let bib = BibliographyBuilder { entries: vec![bib_entry("knuth", 1, 0)] };
    let fine = library(vec![one_page_book(vec![system_block("logic", 0)])], Some(bib));
    match fine.build() {
        Ok(index) => {
            assert!(index.search_system("logic"));
            assert_eq!(index.search_bib_ref("knuth"), Some(BibliographyBuilderRef(0)));
        },
        Err(errors) => panic!("unexpected errors {:?}", errors),
    }

    // A bibliography with a repeated key fails at indexing.
    let twice = BibliographyBuilder { entries: vec![bib_entry("knuth", 1, 0), bib_entry("knuth", 1, 1)] };
    match library(vec![], Some(twice)).build() {
        Err(errors) => assert_eq!(
            errors,
            vec![ParsingError::BibliographyError(1, BibliographyParsingError::KeyAlreadyTaken(BibliographyBuilderRef(0)))]
        ),
        Ok(_) => panic!("indexing should fail"),
    }
}

use ckproof::builders::language::{DisplayFormulaBuilder, FormulaBuilder};
use ckproof::builders::system::{ProofBuilder, ProofBuilderElement, ProofBuilderMeta, ProofBuilderStep};
use ckproof::builders::text::MathBuilder;
use ckproof::builders::directory::VariableBuilderRef;

fn plain_step() -> ProofBuilderElement {
    ProofBuilderElement::Step(ProofBuilderStep {
        meta: ProofBuilderMeta { justifications: vec![], tags: vec![] },
        formula: DisplayFormulaBuilder {
            display: MathBuilder { elements: vec![] },
            formula: FormulaBuilder::Variable(VariableBuilderRef(0)),
        },
        end: ".".to_owned(),
        tag: 0,
        id: String::new(),
        href: String::new(),
    })
}

#[test]
fn addresses_follow_book_chapter_page_and_anchor() {
    let proof = BlockBuilder::Proof(ProofBuilder {
        system_id: "logic".to_owned(),
        theorem_id: "thm".to_owned(),
        serial: 3,
        elements: (0..12)
            .map(|i| if i == 1 { ProofBuilderElement::Text(TextBuilder::Paragraph(paragraph(vec![]))) } else { plain_step() })
            .collect(),
    });
    let mut book = one_page_book(vec![
        system_block("logic", 0),
        BlockBuilder::Symbol(symbol("and", 1, vec![])),
        type_block("prop", "logic", 2),
        proof,
    ]);
    book.set_href();
    assert_eq!(book.href, "/b");
    let chapter = &book.chapters[0];
    assert_eq!(chapter.href, "/b/c");
    let page = &chapter.pages[0];
    assert_eq!(page.href, "/b/c/p");
    match &page.blocks[0] {
        BlockBuilder::System(s) => assert_eq!(s.href, "/b/c/p#logic"),
        _ => panic!("a system"),
    }
    match &page.blocks[1] {
        BlockBuilder::Symbol(s) => assert_eq!(s.href, "/b/c/p#logic_and"),
        _ => panic!("a symbol"),
    }
    match &page.blocks[3] {
        BlockBuilder::Proof(p) => {
            match &p.elements[0] {
                ProofBuilderElement::Step(step) => {
                    assert_eq!(step.tag, 1);
                    assert_eq!(step.id, "logic_thm_proof_0");
                    assert_eq!(step.href, "/b/c/p#logic_thm_proof_0");
                },
                _ => panic!("a step"),
            }
            // The text in second place is not counted.
            match &p.elements[2] {
                ProofBuilderElement::Step(step) => {
                    assert_eq!(step.tag, 2);
                    assert_eq!(step.id, "logic_thm_proof_1");
                },
                _ => panic!("a step"),
            }
            match &p.elements[11] {
                ProofBuilderElement::Step(step) => {
                    assert_eq!(step.tag, 11);
                    assert_eq!(step.id, "logic_thm_proof_10");
                },
                _ => panic!("a step"),
            }
        },
        _ => panic!("a proof"),
    }
}

#[test]
fn child_blocks_anchor_on_system_and_id() {
    let mut s = symbol("and", 1, vec![]);
    s.set_href("book", "ch", "pg");
    assert_eq!(s.href, "/book/ch/pg#logic_and");
    let mut sys = SystemBuilder {
        id: "logic".to_owned(),
        location: at(0),
        entries: SystemBuilderEntries { names: vec![], taglines: vec![], descriptions: vec![] },
        href: String::new(),
    };
    sys.set_href("book", "ch", "pg");
    assert_eq!(sys.href, "/book/ch/pg#logic");
}

fn named_type(id: &str, serial: usize) -> BlockBuilder {
    BlockBuilder::Type(TypeBuilder {
        id: id.to_owned(),
        system_id: "logic".to_owned(),
        location: at(serial),
        entries: TypeBuilderEntries {
            names: vec![id.to_owned()],
            taglines: vec![paragraph(vec![word("t")])],
            descriptions: vec![],
        },
    })
}

#[test]
fn building_adds_the_operators_of_a_clean_library() {
    let bib = || BibliographyBuilder { entries: vec![bib_entry("knuth", 1, 0)] };
    let fine = library(
        vec![one_page_book(vec![
            system_block("logic", 0),
            named_type("Bool", 1),
            BlockBuilder::Symbol(symbol("and", 2, vec![and_read()])),
        ])],
        Some(bib()),
    );
    match fine.build() {
        Ok(index) => {
            let b = ground("Bool");
            let found = index.search_operator("logic", &ReadSignature { read: and_read(), inputs: vec![&b, &b] });
            assert_eq!(found.unwrap().0, ReadableBuilder::Symbol(SymbolBuilderRef(2)));
        },
        Err(errors) => panic!("unexpected errors {:?}", errors),
    }

    // Two symbols read alike: the operator stage fails on the second.
    let twice = library(
        vec![one_page_book(vec![
            system_block("logic", 0),
            named_type("Bool", 1),
            BlockBuilder::Symbol(symbol("and", 2, vec![and_read()])),
            BlockBuilder::Symbol(symbol("also", 3, vec![and_read()])),
        ])],
        Some(bib()),
    );
    match twice.build() {
        Err(errors) => assert_eq!(
            errors,
            vec![ParsingError::ReadableError(
                ReadableBuilder::Symbol(SymbolBuilderRef(3)),
                ReadableParsingError::IdAlreadyTaken(ReadableBuilder::Symbol(SymbolBuilderRef(2)))
            )]
        ),
        Ok(_) => panic!("the operator stage should fail"),
    }
}

use ckproof::builders::entries::EntryNode;

#[test]
fn entries_are_gathered_by_kind_in_order() {
    let entries = SystemBuilderEntries::from_nodes(vec![
        EntryNode::Name("A".to_owned()),
        EntryNode::Tagline(paragraph(vec![word("t")])),
        EntryNode::Name("B".to_owned()),
    ]);
    assert_eq!(entries.names, vec!["A".to_owned(), "B".to_owned()]);
    assert_eq!(entries.taglines.len(), 1);
    assert!(entries.descriptions.is_empty());

    let symbol = SymbolBuilderEntries::from_nodes(vec![
        EntryNode::Read(and_read()),
        EntryNode::Name("and".to_owned()),
        EntryNode::TypeSignature(ground("Bool")),
    ]);
    assert_eq!(symbol.reads, vec![and_read()]);
    assert_eq!(symbol.names, vec!["and".to_owned()]);
    assert_eq!(symbol.type_signatures.len(), 1);
    assert!(symbol.displays.is_empty());
}

fn block_serial(block: &BlockBuilder) -> usize {
    match block {
        BlockBuilder::System(b) => b.location.serial,
        BlockBuilder::Type(b) => b.location.serial,
        _ => usize::MAX,
    }
}

#[test]
fn blocks_are_placed_in_reading_order() {
    let page = |blocks: Vec<BlockBuilder>| PageBuilder { id: "p".to_owned(), name: "P".to_owned(), blocks, href: String::new() };
    let mut book = one_page_book(vec![system_block("logic", 40), type_block("Bool", "logic", 40)]);
    book.chapters[0].pages.push(page(vec![type_block("Nat", "logic", 40)]));
    let mut location = BlockLocation::new();
    book.place_blocks(&mut location);
    let pages = &book.chapters[0].pages;
    assert_eq!(block_serial(&pages[0].blocks[0]), 0);
    assert_eq!(block_serial(&pages[0].blocks[1]), 1);
    assert_eq!(block_serial(&pages[1].blocks[0]), 2);
    match &pages[1].blocks[0] {
        BlockBuilder::Type(b) => assert_eq!((b.location.block, b.location.page), (0, 1)),
        _ => panic!("a type block was expected"),
    }
    // The location has moved on to the next book.
    assert_eq!((location.book, location.chapter, location.page, location.block, location.serial), (1, 0, 0, 0, 3));
}

#[test]
fn library_blocks_are_numbered_across_books() {
    let mut lib = library(
        vec![
            one_page_book(vec![system_block("logic", 40)]),
            one_page_book(vec![system_block("sets", 40), type_block("Set", "sets", 40)]),
        ],
        None,
    );
    lib.place_blocks();
    let serials: Vec<usize> = lib
        .books
        .iter()
        .flat_map(|b| b.chapters[0].pages[0].blocks.iter().map(block_serial))
        .collect();
    assert_eq!(serials, vec![0, 1, 2]);
    match &lib.books[1].chapters[0].pages[0].blocks[0] {
        BlockBuilder::System(s) => assert_eq!((s.location.book, s.location.block), (1, 0)),
        _ => panic!("a system block was expected"),
    }
}
