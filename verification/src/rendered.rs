use vstd::prelude::*;

verus! {

/// How a notation is written around its inputs.
#[derive(Debug)]
pub enum DenotedStyle {
    Prefix,
    Infix,
    Suffix,
}

/// A notation and an example of its use.
#[derive(Debug)]
pub struct Denoted {
    pub style: DenotedStyle,
    pub example: String,
}

impl Denoted {
    pub fn new(
        style: DenotedStyle,
        example: String,
    ) -> (r: Denoted)
        ensures
            r.style == style,
            r.example == example,
    {
        Denoted { style, example }
    }
}

/// A system, ready to be shown.
#[derive(Debug)]
pub struct SystemRendered {
    pub id: String,
    pub name: String,
    pub tagline: String,
    pub description: Vec<TextRendered>,
}

impl SystemRendered {
    pub fn new(
        id: String,
        name: String,
        tagline: String,
        description: Vec<TextRendered>,
    ) -> (r: SystemRendered)
        ensures
            r.id == id,
            r.name == name,
            r.tagline == tagline,
            r.description == description,
    {
        SystemRendered { id, name, tagline, description }
    }
}

/// A type, ready to be shown.
#[derive(Debug)]
pub struct TypeRendered {
    pub id: String,
    pub system_id: String,
    pub name: String,
    pub system_name: String,
    pub tagline: String,
    pub description: Vec<TextRendered>,
}

impl TypeRendered {
    pub fn new(
        id: String,
        system_id: String,
        name: String,
        system_name: String,
        tagline: String,
        description: Vec<TextRendered>,
    ) -> (r: TypeRendered)
        ensures
            r.id == id,
            r.system_id == system_id,
            r.name == name,
            r.system_name == system_name,
            r.tagline == tagline,
            r.description == description,
    {
        TypeRendered { id, system_id, name, system_name, tagline, description }
    }
}

/// A symbol, ready to be shown.
#[derive(Debug)]
pub struct SymbolRendered {
    pub id: String,
    pub system_id: String,
    pub name: String,
    pub system_name: String,
    pub tagline: String,
    pub description: Vec<TextRendered>,
    pub denoted: Option<Denoted>,
    pub type_signature: String,
}

impl SymbolRendered {
    pub fn new(
        id: String,
        system_id: String,
        name: String,
        system_name: String,
        tagline: String,
        description: Vec<TextRendered>,
        denoted: Option<Denoted>,
        type_signature: String,
    ) -> (r: SymbolRendered)
        ensures
            r.id == id,
            r.system_id == system_id,
            r.name == name,
            r.system_name == system_name,
            r.tagline == tagline,
            r.description == description,
            r.denoted == denoted,
            r.type_signature == type_signature,
    {
        SymbolRendered { id, system_id, name, system_name, tagline, description, denoted, type_signature }
    }
}

/// A definition, ready to be shown.
#[derive(Debug)]
pub struct DefinitionRendered {
    pub id: String,
    pub system_id: String,
    pub name: String,
    pub system_name: String,
    pub tagline: String,
    pub description: Vec<TextRendered>,
    pub denoted: Option<Denoted>,
    pub type_signature: String,
    pub expanded: String,
    pub example: String,
}

impl DefinitionRendered {
    pub fn new(
        id: String,
        system_id: String,
        name: String,
        system_name: String,
        tagline: String,
        description: Vec<TextRendered>,
        denoted: Option<Denoted>,
        type_signature: String,
        expanded: String,
        example: String,
    ) -> (r: DefinitionRendered)
        ensures
            r.id == id,
            r.system_id == system_id,
            r.name == name,
            r.system_name == system_name,
            r.tagline == tagline,
            r.description == description,
            r.denoted == denoted,
            r.type_signature == type_signature,
            r.expanded == expanded,
            r.example == example,
    {
        DefinitionRendered { id, system_id, name, system_name, tagline, description, denoted, type_signature, expanded, example }
    }
}

/// An axiom, ready to be shown.
#[derive(Debug)]
pub struct AxiomRendered {
    pub id: String,
    pub system_id: String,
    pub name: String,
    pub system_name: String,
    pub tagline: String,
    pub description: Vec<TextRendered>,
    pub premise: Vec<String>,
    pub assertion: String,
}

impl AxiomRendered {
    pub fn new(
        id: String,
        system_id: String,
        name: String,
        system_name: String,
        tagline: String,
        description: Vec<TextRendered>,
        premise: Vec<String>,
        assertion: String,
    ) -> (r: AxiomRendered)
        ensures
            r.id == id,
            r.system_id == system_id,
            r.name == name,
            r.system_name == system_name,
            r.tagline == tagline,
            r.description == description,
            r.premise == premise,
            r.assertion == assertion,
    {
        AxiomRendered { id, system_id, name, system_name, tagline, description, premise, assertion }
    }
}

/// A theorem, ready to be shown.
#[derive(Debug)]
pub struct TheoremRendered {
    pub id: String,
    pub system_id: String,
    pub name: String,
    pub system_name: String,
    pub tagline: String,
    pub description: Vec<TextRendered>,
    pub premise: Vec<String>,
    pub assertion: String,
}

impl TheoremRendered {
    pub fn new(
        id: String,
        system_id: String,
        name: String,
        system_name: String,
        tagline: String,
        description: Vec<TextRendered>,
        premise: Vec<String>,
        assertion: String,
    ) -> (r: TheoremRendered)
        ensures
            r.id == id,
            r.system_id == system_id,
            r.name == name,
            r.system_name == system_name,
            r.tagline == tagline,
            r.description == description,
            r.premise == premise,
            r.assertion == assertion,
    {
        TheoremRendered { id, system_id, name, system_name, tagline, description, premise, assertion }
    }
}

/// Why a shown proof step holds.
#[derive(Debug)]
pub enum ProofRenderedJustification {
    SystemChild(String, String),
    Hypothesis(usize),
    Definition,
    Substitution,
}

/// A step of a shown proof.
#[derive(Debug)]
pub struct ProofRenderedStep {
    pub id: String,
    pub justification: ProofRenderedJustification,
    pub formula: String,
    pub end: String,
    pub tag: usize,
}

impl ProofRenderedStep {
    pub fn new(
        id: String,
        justification: ProofRenderedJustification,
        formula: String,
        end: String,
        tag: usize,
    ) -> (r: ProofRenderedStep)
        ensures
            r.id == id,
            r.justification == justification,
            r.formula == formula,
            r.end == end,
            r.tag == tag,
    {
        ProofRenderedStep { id, justification, formula, end, tag }
    }
}

/// A piece of a shown proof: text, or a step.
#[derive(Debug)]
pub enum ProofRenderedElement {
    Text(TextRendered),
    Step(ProofRenderedStep),
}

/// A proof, ready to be shown.
#[derive(Debug)]
pub struct ProofRendered {
    pub theorem_name: String,
    pub elements: Vec<ProofRenderedElement>,
}

impl ProofRendered {
    pub fn new(
        theorem_name: String,
        elements: Vec<ProofRenderedElement>,
    ) -> (r: ProofRendered)
        ensures
            r.theorem_name == theorem_name,
            r.elements == elements,
    {
        ProofRendered { theorem_name, elements }
    }
}

/// A row of a shown table.
#[derive(Debug)]
pub struct TableRenderedRow {
    pub cells: Vec<String>,
}

impl TableRenderedRow {
    pub fn new(
        cells: Vec<String>,
    ) -> (r: TableRenderedRow)
        ensures
            r.cells == cells,
    {
        TableRenderedRow { cells }
    }
}

/// A table, ready to be shown.
#[derive(Debug)]
pub struct TableRendered {
    pub head: Option<Vec<TableRenderedRow>>,
    pub body: Option<Vec<TableRenderedRow>>,
    pub foot: Option<Vec<TableRenderedRow>>,
    pub caption: Option<String>,
}

impl TableRendered {
    pub fn new(
        head: Option<Vec<TableRenderedRow>>,
        body: Option<Vec<TableRenderedRow>>,
        foot: Option<Vec<TableRenderedRow>>,
        caption: Option<String>,
    ) -> (r: TableRendered)
        ensures
            r.head == head,
            r.body == body,
            r.foot == foot,
            r.caption == caption,
    {
        TableRendered { head, body, foot, caption }
    }
}

/// A quotation and the bibliography entry it comes from.
#[derive(Debug)]
pub struct QuoteValueRendered {
    pub quote: String,
    pub local_bib_ref: usize,
}

impl QuoteValueRendered {
    pub fn new(
        quote: String,
        local_bib_ref: usize,
    ) -> (r: QuoteValueRendered)
        ensures
            r.quote == quote,
            r.local_bib_ref == local_bib_ref,
    {
        QuoteValueRendered { quote, local_bib_ref }
    }
}

/// A quotation, with its original where it was translated.
#[derive(Debug)]
pub struct QuoteRendered {
    pub original: Option<QuoteValueRendered>,
    pub value: QuoteValueRendered,
}

impl QuoteRendered {
    pub fn new(
        original: Option<QuoteValueRendered>,
        value: QuoteValueRendered,
    ) -> (r: QuoteRendered)
        ensures
            r.original == original,
            r.value == value,
    {
        QuoteRendered { original, value }
    }
}

/// A heading of a given level.
#[derive(Debug)]
pub struct HeadingRendered {
    pub level: usize,
    pub content: String,
}

impl HeadingRendered {
    pub fn new(
        level: usize,
        content: String,
    ) -> (r: HeadingRendered)
        ensures
            r.level == level,
            r.content == content,
    {
        HeadingRendered { level, content }
    }
}

/// A note of work left to do.
#[derive(Debug)]
pub struct TodoRendered {
    pub elements: Vec<TextRendered>,
}

impl TodoRendered {
    pub fn new(
        elements: Vec<TextRendered>,
    ) -> (r: TodoRendered)
        ensures
            r.elements == elements,
    {
        TodoRendered { elements }
    }
}

/// An item of a substitution list: a variable and its replacement.
#[derive(Debug)]
pub struct SublistItemRendered {
    pub var_id: String,
    pub replacement: String,
}

impl SublistItemRendered {
    pub fn new(
        var_id: String,
        replacement: String,
    ) -> (r: SublistItemRendered)
        ensures
            r.var_id == var_id,
            r.replacement == replacement,
    {
        SublistItemRendered { var_id, replacement }
    }
}

/// A displayed formula and its trailing punctuation.
#[derive(Debug)]
pub struct DisplayMathRendered {
    pub math: String,
    pub end: String,
}

impl DisplayMathRendered {
    pub fn new(
        math: String,
        end: String,
    ) -> (r: DisplayMathRendered)
        ensures
            r.math == math,
            r.end == end,
    {
        DisplayMathRendered { math, end }
    }
}

/// The container part of an MLA citation.
#[derive(Debug)]
pub struct MlaContainerRendered {
    pub container_title: Option<String>,
    pub other_contributors: Option<String>,
    pub version: Option<String>,
    pub number: Option<String>,
    pub publisher: Option<String>,
    pub publication_date: Option<String>,
    pub location: Option<String>,
}

impl MlaContainerRendered {
    pub fn new(
        container_title: Option<String>,
        other_contributors: Option<String>,
        version: Option<String>,
        number: Option<String>,
        publisher: Option<String>,
        publication_date: Option<String>,
        location: Option<String>,
    ) -> (r: MlaContainerRendered)
        ensures
            r.container_title == container_title,
            r.other_contributors == other_contributors,
            r.version == version,
            r.number == number,
            r.publisher == publisher,
            r.publication_date == publication_date,
            r.location == location,
    {
        MlaContainerRendered { container_title, other_contributors, version, number, publisher, publication_date, location }
    }
}

/// An MLA citation.
#[derive(Debug)]
pub struct MlaRendered {
    pub author: Option<String>,
    pub title: String,
    pub containers: Vec<MlaContainerRendered>,
}

impl MlaRendered {
    pub fn new(
        author: Option<String>,
        title: String,
        containers: Vec<MlaContainerRendered>,
    ) -> (r: MlaRendered)
        ensures
            r.author == author,
            r.title == title,
            r.containers == containers,
    {
        MlaRendered { author, title, containers }
    }
}

/// A shown piece of text.
#[derive(Debug)]
pub enum TextRendered {
    Mla(MlaRendered),
    Sublist(Vec<SublistItemRendered>),
    DisplayMath(DisplayMathRendered),
    Paragraph(String),
}

/// A shown block of a page.
#[derive(Debug)]
pub enum BlockRendered {
    System(SystemRendered),
    Type(TypeRendered),
    Symbol(SymbolRendered),
    Definition(DefinitionRendered),
    Axiom(AxiomRendered),
    Theorem(TheoremRendered),
    Proof(ProofRendered),
    Table(TableRendered),
    Quote(QuoteRendered),
    Heading(Vec<HeadingRendered>),
    Todo(TodoRendered),
    Text(TextRendered),
}

/// A page, ready to be shown.
#[derive(Debug)]
pub struct PageRendered {
    pub id: String,
    pub href: String,
    pub page_num: usize,
    pub chapter_num: usize,
    pub page_name: String,
    pub chapter_name: String,
    pub prev_href: String,
    pub up_href: String,
    pub next_href: Option<String>,
    pub blocks: Vec<BlockRendered>,
    pub local_bibliography: Option<Vec<MlaRendered>>,
}

impl PageRendered {
    pub fn new(
        id: String,
        href: String,
        page_num: usize,
        chapter_num: usize,
        page_name: String,
        chapter_name: String,
        prev_href: String,
        up_href: String,
        next_href: Option<String>,
        blocks: Vec<BlockRendered>,
        local_bibliography: Option<Vec<MlaRendered>>,
    ) -> (r: PageRendered)
        ensures
            r.id == id,
            r.href == href,
            r.page_num == page_num,
            r.chapter_num == chapter_num,
            r.page_name == page_name,
            r.chapter_name == chapter_name,
            r.prev_href == prev_href,
            r.up_href == up_href,
            r.next_href == next_href,
            r.blocks == blocks,
            r.local_bibliography == local_bibliography,
    {
        PageRendered { id, href, page_num, chapter_num, page_name, chapter_name, prev_href, up_href, next_href, blocks, local_bibliography }
    }

    pub fn name(&self) -> (r: &str)
        ensures
            r@ == self.page_name@,
    {
        self.page_name.as_str()
    }
}

/// A chapter, ready to be shown.
#[derive(Debug)]
pub struct ChapterRendered {
    pub id: String,
    pub href: String,
    pub num: usize,
    pub name: String,
    pub tagline: String,
    pub pages: Vec<PageRendered>,
}

impl ChapterRendered {
    pub fn new(
        id: String,
        href: String,
        num: usize,
        name: String,
        tagline: String,
        pages: Vec<PageRendered>,
    ) -> (r: ChapterRendered)
        ensures
            r.id == id,
            r.href == href,
            r.num == num,
            r.name == name,
            r.tagline == tagline,
            r.pages == pages,
    {
        ChapterRendered { id, href, num, name, tagline, pages }
    }

    pub fn name(&self) -> (r: &str)
        ensures
            r@ == self.name@,
    {
        self.name.as_str()
    }
}

/// A book, ready to be shown.
#[derive(Debug)]
pub struct BookRendered {
    pub id: String,
    pub href: String,
    pub num: usize,
    pub name: String,
    pub tagline: String,
    pub chapters: Vec<ChapterRendered>,
}

impl BookRendered {
    pub fn new(
        id: String,
        href: String,
        num: usize,
        name: String,
        tagline: String,
        chapters: Vec<ChapterRendered>,
    ) -> (r: BookRendered)
        ensures
            r.id == id,
            r.href == href,
            r.num == num,
            r.name == name,
            r.tagline == tagline,
            r.chapters == chapters,
    {
        BookRendered { id, href, num, name, tagline, chapters }
    }

    pub fn name(&self) -> (r: &str)
        ensures
            r@ == self.name@,
    {
        self.name.as_str()
    }
}

/// The books of a document, in order.
#[derive(Debug)]
pub struct ManifestRendered {
    pub books: Vec<BookRendered>,
}

/// The position of the last element of `ids` that equals `id`, if there is one.
pub open spec fn last_position(ids: Seq<Seq<char>>, id: Seq<char>) -> Option<int>
    decreases ids.len(),
{
    if ids.len() == 0 {
        None
    } else if ids.last() == id {
        Some(ids.len() - 1)
    } else {
        last_position(ids.drop_last(), id)
    }
}

/// Where an identifier last occurs lies in range and holds it.
pub proof fn lemma_last_position(ids: Seq<Seq<char>>, id: Seq<char>)
    ensures
        last_position(ids, id) matches Some(i) ==> 0 <= i < ids.len() && ids[i] == id && forall|j: int|
            i < j < ids.len() ==> ids[j] != id,
        last_position(ids, id) is None ==> forall|j: int| 0 <= j < ids.len() ==> ids[j] != id,
    decreases ids.len(),
{
    if ids.len() > 0 {
        lemma_last_position(ids.drop_last(), id);
        assert forall|j: int| 0 <= j < ids.len() - 1 implies ids.drop_last()[j] == ids[j] by {}
    }
}

pub open spec fn book_ids(books: Seq<BookRendered>) -> Seq<Seq<char>> {
    Seq::new(books.len(), |i: int| books[i].id@)
}

pub open spec fn chapter_ids(chapters: Seq<ChapterRendered>) -> Seq<Seq<char>> {
    Seq::new(chapters.len(), |i: int| chapters[i].id@)
}

pub open spec fn page_ids(pages: Seq<PageRendered>) -> Seq<Seq<char>> {
    Seq::new(pages.len(), |i: int| pages[i].id@)
}

/// Identifiers no two of which are the same.
pub open spec fn distinct_ids(ids: Seq<Seq<char>>) -> bool {
    forall|a: int, b: int| 0 <= a < b < ids.len() ==> ids[a] != ids[b]
}

/// Among distinct identifiers, looking one up finds its own position.
pub proof fn lemma_distinct_last_position(ids: Seq<Seq<char>>, i: int)
    requires
        distinct_ids(ids),
        0 <= i < ids.len(),
    ensures
        last_position(ids, ids[i]) == Some(i),
{
    lemma_last_position(ids, ids[i]);
    if let Some(j) = last_position(ids, ids[i]) {
        if j < i {
            assert(ids[i] != ids[i]);
        } else if i < j {
            assert(ids[i] != ids[j]);
        }
    }
}

/// Where the books of a rendered document have distinct identifiers, as do the chapters of each
/// book and the pages of each chapter, looking up a book, a chapter of it or a page of that
/// (`DocumentRendered::get_book`, `get_chapter`, `get_page`) by their identifiers finds the one at
/// that position.
pub proof fn law_lookup_finds_each_item(books: Seq<BookRendered>, i: int, j: int, k: int)
    requires
        0 <= i < books.len(),
        0 <= j < books[i].chapters@.len(),
        0 <= k < books[i].chapters@[j].pages@.len(),
        distinct_ids(book_ids(books)),
        forall|b: int| 0 <= b < books.len() ==> distinct_ids(chapter_ids(#[trigger] books[b].chapters@)),
        forall|b: int, c: int|
            0 <= b < books.len() && 0 <= c < books[b].chapters@.len() ==> distinct_ids(
                page_ids(#[trigger] books[b].chapters@[c].pages@),
            ),
    ensures
        last_position(book_ids(books), books[i].id@) == Some(i),
        last_position(chapter_ids(books[i].chapters@), books[i].chapters@[j].id@) == Some(j),
        last_position(page_ids(books[i].chapters@[j].pages@), books[i].chapters@[j].pages@[k].id@) == Some(k),
{
    lemma_distinct_last_position(book_ids(books), i);
    assert(distinct_ids(chapter_ids(books[i].chapters@)));
    lemma_distinct_last_position(chapter_ids(books[i].chapters@), j);
    assert(distinct_ids(page_ids(books[i].chapters@[j].pages@)));
    lemma_distinct_last_position(page_ids(books[i].chapters@[j].pages@), k);
}

/// The last position in `ids[..n]` that holds `key`, found from the end.
fn find_last(ids: &Vec<&String>, key: &String) -> (r: Option<usize>)
    ensures
        r matches Some(i) ==> i < ids@.len() && last_position(Seq::new(ids@.len(), |k: int| ids@[k]@), key@) == Some(
            i as int,
        ),
        r is None ==> last_position(Seq::new(ids@.len(), |k: int| ids@[k]@), key@) is None,
{
    let ghost all = Seq::new(ids@.len(), |k: int| ids@[k]@);
    assert(all.take(ids@.len() as int) == all);
    let mut i: usize = ids.len();
    while i > 0
        invariant
            i <= ids@.len(),
            all == Seq::new(ids@.len(), |k: int| ids@[k]@),
            last_position(all, key@) == last_position(all.take(i as int), key@),
        decreases i,
    {
        proof {
            assert(all.take(i as int).drop_last() == all.take(i - 1));
            assert(all.take(i as int).last() == ids@[i - 1]@);
        }
        if *ids[i - 1] == *key {
            return Some(i - 1);
        }
        i = i - 1;
    }
    proof {
        assert(all.take(0).len() == 0);
    }
    None
}

/// A rendered document: its books, which can be looked up by identifier.
#[derive(Debug)]
pub struct DocumentRendered {
    pub manifest: ManifestRendered,
}

impl DocumentRendered {
    pub fn new(books: Vec<BookRendered>) -> (r: DocumentRendered)
        ensures
            r.manifest.books == books,
    {
        DocumentRendered { manifest: ManifestRendered { books } }
    }

    pub fn manifest(&self) -> (r: &ManifestRendered)
        ensures
            *r == self.manifest,
    {
        &self.manifest
    }

    /// The book with the given identifier; where several share it, the last of them.
    pub fn get_book(&self, book: &str) -> (r: Option<&BookRendered>)
        ensures
            r == (match last_position(book_ids(self.manifest.books@), book@) {
                Some(i) => Some(&self.manifest.books@[i]),
                None => None,
            }),
    {
        let key = book.to_owned();
        let books = &self.manifest.books;
        let mut ids: Vec<&String> = Vec::new();
        let mut i: usize = 0;
        while i < books.len()
            invariant
                i <= books@.len(),
                ids@.len() == i,
                forall|k: int| 0 <= k < i ==> *ids@[k] == books@[k].id,
            decreases books@.len() - i,
        {
            ids.push(&books[i].id);
            i = i + 1;
        }
        proof {
            assert(Seq::new(ids@.len(), |k: int| ids@[k]@) =~= book_ids(books@));
        }
        match find_last(&ids, &key) {
            Some(k) => Some(&books[k]),
            None => None,
        }
    }

    /// The chapter with the given identifier in the book found by `get_book`; where several
    /// chapters share it, the last of them.
    pub fn get_chapter(&self, book: &str, chapter: &str) -> (r: Option<&ChapterRendered>)
        ensures
            r == (match last_position(book_ids(self.manifest.books@), book@) {
                Some(i) => match last_position(
                    chapter_ids(self.manifest.books@[i].chapters@),
                    chapter@,
                ) {
                    Some(j) => Some(&self.manifest.books@[i].chapters@[j]),
                    None => None,
                },
                None => None,
            }),
    {
        match self.get_book(book) {
            None => None,
            Some(b) => {
                let key = chapter.to_owned();
                let chapters = &b.chapters;
                let mut ids: Vec<&String> = Vec::new();
                let mut i: usize = 0;
                while i < chapters.len()
                    invariant
                        i <= chapters@.len(),
                        ids@.len() == i,
                        forall|k: int| 0 <= k < i ==> *ids@[k] == chapters@[k].id,
                    decreases chapters@.len() - i,
                {
                    ids.push(&chapters[i].id);
                    i = i + 1;
                }
                proof {
                    assert(Seq::new(ids@.len(), |k: int| ids@[k]@) =~= chapter_ids(chapters@));
                }
                match find_last(&ids, &key) {
                    Some(k) => Some(&chapters[k]),
                    None => None,
                }
            },
        }
    }

    /// The page with the given identifier in the chapter found by `get_chapter`; where several
    /// pages share it, the last of them.
    pub fn get_page(&self, book: &str, chapter: &str, page: &str) -> (r: Option<&PageRendered>)
        ensures
            r == (match last_position(book_ids(self.manifest.books@), book@) {
                Some(i) => match last_position(
                    chapter_ids(self.manifest.books@[i].chapters@),
                    chapter@,
                ) {
                    Some(j) => match last_position(
                        page_ids(self.manifest.books@[i].chapters@[j].pages@),
                        page@,
                    ) {
                        Some(k) => Some(&self.manifest.books@[i].chapters@[j].pages@[k]),
                        None => None,
                    },
                    None => None,
                },
                None => None,
            }),
    {
        match self.get_chapter(book, chapter) {
            None => None,
            Some(c) => {
                let key = page.to_owned();
                let pages = &c.pages;
                let mut ids: Vec<&String> = Vec::new();
                let mut i: usize = 0;
                while i < pages.len()
                    invariant
                        i <= pages@.len(),
                        ids@.len() == i,
                        forall|k: int| 0 <= k < i ==> *ids@[k] == pages@[k].id,
                    decreases pages@.len() - i,
                {
                    ids.push(&pages[i].id);
                    i = i + 1;
                }
                proof {
                    assert(Seq::new(ids@.len(), |k: int| ids@[k]@) =~= page_ids(pages@));
                }
                match find_last(&ids, &key) {
                    Some(k) => Some(&pages[k]),
                    None => None,
                }
            },
        }
    }
}

} // verus!
