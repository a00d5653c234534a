use ckproof::document::language::{Display, DisplayStyle};
use ckproof::document::system::TheoremKind;
use ckproof::document::text::{
    BareElement, BareText, DisplayMathBlock, HeadingLevel, MathBlock, MathElement, Sublist, SublistItem,
};
use ckproof::map_ident;
use ckproof::rendered::{BookRendered, ChapterRendered, DenotedStyle, DocumentRendered, PageRendered};
use ckproof::FileLocation;

#[test]
fn greek_letter_names_become_letters() {
    assert_eq!(map_ident("alpha"), "\u{03B1}");
    assert_eq!(map_ident("omega"), "\u{03C9}");
    assert_eq!(map_ident("pi"), "\u{03C0}");
    assert_eq!(map_ident("x"), "x");
    assert_eq!(map_ident("Alpha"), "Alpha");
}

#[test]
fn bare_text_escapes_and_quotes() {
    let text = BareText::new(vec![
        BareElement::LeftDoubleQuote,
        BareElement::Word("a".to_owned()),
        BareElement::Ampersand,
        BareElement::Word("b".to_owned()),
        BareElement::RightDoubleQuote,
        BareElement::Whitespace,
        BareElement::OpenBracket,
        BareElement::Apostrophe,
        BareElement::CloseBracket,
        BareElement::Ellipsis,
    ]);
    assert_eq!(text.render(), "\u{201C}a&amp;b\u{201D} [&apos;]\u{2026}");
    assert_eq!(BareElement::LeftSingleQuote.render(), "\u{2018}");
    assert_eq!(BareElement::RightSingleQuote.render(), "\u{2019}");
}

fn row(elements: Vec<MathElement>) -> MathBlock {
    MathBlock::new(elements)
}

#[test]
fn math_renders_as_mathml() {
    let math = row(vec![
        MathElement::Variable("x".to_owned()),
        MathElement::Operator("+".to_owned()),
        MathElement::Number("1".to_owned()),
        MathElement::Separator,
        MathElement::Symbol("f".to_owned()),
        MathElement::Fenced(row(vec![MathElement::Symbol("y".to_owned())])),
    ]);
    assert_eq!(
        math.render(),
        "<mrow><mo class=\"var\">&apos;</mo><mi>x</mi><mo>+</mo><mn>1</mn><mo class=\"separator\">,</mo>\
<mi>f</mi><mo class=\"paren\">(</mo><mrow><mi>y</mi></mrow><mo class=\"paren\">)</mo></mrow>"
    );
}

#[test]
fn roots_and_powers_render() {
    let sqrt = MathElement::SquareRoot(row(vec![MathElement::Number("2".to_owned())]));
    assert_eq!(sqrt.render(), "<msqrt><mrow><mn>2</mn></mrow></msqrt>");
    let power = MathElement::Power(
        row(vec![MathElement::Symbol("e".to_owned())]),
        row(vec![MathElement::Number("3".to_owned())]),
    );
    assert_eq!(power.render(), "<msup><mrow><mrow><mi>e</mi></mrow></mrow><mrow><mrow><mn>3</mn></mrow></mrow></msup>");
}

#[test]
fn display_math_and_sublists_render() {
    let display = DisplayMathBlock::new(row(vec![MathElement::Number("0".to_owned())]), ".".to_owned());
    let rendered = display.render();
    assert_eq!(rendered.math, "<mrow><mn>0</mn></mrow>");
    assert_eq!(rendered.end, ".");

    let sublist = Sublist::new(vec![
        SublistItem::new("x".to_owned(), row(vec![MathElement::Number("1".to_owned())])),
        SublistItem::new("y".to_owned(), row(vec![])),
    ]);
    let items = sublist.render();
    assert_eq!(items.len(), 2);
    assert_eq!(items[0].var_id, "x");
    assert_eq!(items[0].replacement, "<mrow><mn>1</mn></mrow>");
    assert_eq!(items[1].replacement, "<mrow></mrow>");
}

#[test]
fn heading_levels_render_as_numbers() {
    assert_eq!(HeadingLevel::L1.render(), 1);
    assert_eq!(HeadingLevel::L2.render(), 2);
}

#[test]
fn notation_example_and_render() {
    let display = Display::new(DisplayStyle::Infix, "lambda".to_owned());
    let example = display.example(&vec!["alpha", "b"]);
    assert_eq!(example.render(), "<mrow><mo class=\"var\">&apos;</mo><mi>\u{03B1}</mi><mo>\u{03BB}</mo><mo class=\"var\">&apos;</mo><mi>b</mi></mrow>");
    let denoted = display.render().unwrap();
    assert!(matches!(denoted.style, DenotedStyle::Infix));
    assert_eq!(denoted.example, "\u{03BB}");
    let prefix = Display::new(DisplayStyle::Prefix, "neg".to_owned()).render().unwrap();
    assert!(matches!(prefix.style, DenotedStyle::Prefix));
    assert_eq!(prefix.example, "neg");
}

#[test]
fn theorem_kinds_render() {
    assert_eq!(TheoremKind::Lemma.render(), "Lemma");
    assert_eq!(TheoremKind::Theorem.render(), "Theorem");
}

fn page(id: &str) -> PageRendered {
    PageRendered::new(
        id.to_owned(),
        format!("/b/c/{}", id),
        0,
        0,
        format!("Page {}", id),
        "Chapter".to_owned(),
        "/b".to_owned(),
        "/b/c".to_owned(),
        None,
        vec![],
        None,
    )
}

fn chapter(id: &str, name: &str, pages: Vec<PageRendered>) -> ChapterRendered {
    ChapterRendered::new(id.to_owned(), format!("/b/{}", id), 0, name.to_owned(), "tag".to_owned(), pages)
}

fn book(id: &str, name: &str, chapters: Vec<ChapterRendered>) -> BookRendered {
    BookRendered::new(id.to_owned(), format!("/{}", id), 0, name.to_owned(), "tag".to_owned(), chapters)
}

#[test]
fn document_lookups_find_books_chapters_and_pages() {
    let document = DocumentRendered::new(vec![
        book("b", "First", vec![chapter("c", "Chapter one", vec![page("p"), page("q")])]),
        book("d", "Second", vec![]),
    ]);
    assert_eq!(document.manifest().books.len(), 2);
    assert_eq!(document.get_book("b").unwrap().name(), "First");
    assert_eq!(document.get_book("d").unwrap().name(), "Second");
    assert!(document.get_book("x").is_none());
    assert_eq!(document.get_chapter("b", "c").unwrap().name(), "Chapter one");
    assert!(document.get_chapter("d", "c").is_none());
    assert_eq!(document.get_page("b", "c", "q").unwrap().name(), "Page q");
    assert!(document.get_page("b", "c", "r").is_none());
    assert!(document.get_page("x", "c", "p").is_none());
}

#[test]
fn document_lookup_takes_the_last_book_with_an_id() {
    let document = DocumentRendered::new(vec![book("b", "Old", vec![]), book("b", "New", vec![])]);
    assert_eq!(document.get_book("b").unwrap().name(), "New");
}

#[test]
fn file_location_marks_a_span_on_one_line() {
    let lines = vec!["let x = 1;".to_owned()];
    let location = FileLocation::new("a.math".to_owned(), 3, 5, 3, 6, &lines);
    assert_eq!(location.path, "a.math");
    assert_eq!(location.start_line, 3);
    assert_eq!(location.end_column, 6);
    assert_eq!(location.preview, vec!["let \u{1B}[91;4mx\u{1B}[0m = 1;".to_owned()]);
}

#[test]
fn file_location_marks_a_span_over_lines() {
    let lines = vec!["abc".to_owned(), "def".to_owned(), "ghi".to_owned()];
    let location = FileLocation::new("a.math".to_owned(), 1, 2, 3, 3, &lines);
    assert_eq!(
        location.preview,
        vec![
            "a\u{1B}[91;4mbc\u{1B}[0m".to_owned(),
            "\u{1B}[91;4mdef\u{1B}[0m".to_owned(),
            "\u{1B}[91;4mh\u{1B}[0mi".to_owned(),
        ]
    );
}
