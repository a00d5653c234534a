//! Where the blocks of a library stand: each block takes, in reading order, the location that a
//! running location hands out, which moves on to the next page, chapter and book as those end.
use vstd::prelude::*;

use super::blocks::{ListBuilder, QuoteBuilder, TableBuilder, TextBlockBuilder};
use super::structure::{
    AxiomBuilder, BlockBuilder, BookBuilder, ChapterBuilder, DefinitionBuilder, ManifestBuilder, PageBuilder,
    SymbolBuilder, SystemBuilder, TheoremBuilder, TypeBuilder,
};
use super::system::ProofBuilder;
use crate::document::structure::{step_location, BlockLocation, LocationStep};

verus! {

/// A block placed at a location: the blocks that keep where they stand take it, a proof takes
/// its serial number, and notes and headings keep nothing.
pub open spec fn located(block: BlockBuilder, location: BlockLocation) -> BlockBuilder {
    match block {
        BlockBuilder::System(b) => BlockBuilder::System(SystemBuilder { location, ..b }),
        BlockBuilder::Type(b) => BlockBuilder::Type(TypeBuilder { location, ..b }),
        BlockBuilder::Symbol(b) => BlockBuilder::Symbol(SymbolBuilder { location, ..b }),
        BlockBuilder::Definition(b) => BlockBuilder::Definition(DefinitionBuilder { location, ..b }),
        BlockBuilder::Axiom(b) => BlockBuilder::Axiom(AxiomBuilder { location, ..b }),
        BlockBuilder::Theorem(b) => BlockBuilder::Theorem(TheoremBuilder { location, ..b }),
        BlockBuilder::Proof(p) => BlockBuilder::Proof(ProofBuilder { serial: location.serial, ..p }),
        BlockBuilder::List(b) => BlockBuilder::List(ListBuilder { location, ..b }),
        BlockBuilder::Table(b) => BlockBuilder::Table(TableBuilder { location, ..b }),
        BlockBuilder::Quote(b) => BlockBuilder::Quote(QuoteBuilder { location, ..b }),
        BlockBuilder::Todo(_) => block,
        BlockBuilder::Heading(_) => block,
        BlockBuilder::Text(b) => BlockBuilder::Text(TextBlockBuilder { location, ..b }),
    }
}

impl BlockBuilder {
    /// Places the block at `location` (see `located`).
    pub fn set_location(self, location: BlockLocation) -> (r: BlockBuilder)
        ensures
            r == located(self, location),
    {
        match self {
            BlockBuilder::System(b) => BlockBuilder::System(SystemBuilder { location, ..b }),
            BlockBuilder::Type(b) => BlockBuilder::Type(TypeBuilder { location, ..b }),
            BlockBuilder::Symbol(b) => BlockBuilder::Symbol(SymbolBuilder { location, ..b }),
            BlockBuilder::Definition(b) => BlockBuilder::Definition(DefinitionBuilder { location, ..b }),
            BlockBuilder::Axiom(b) => BlockBuilder::Axiom(AxiomBuilder { location, ..b }),
            BlockBuilder::Theorem(b) => BlockBuilder::Theorem(TheoremBuilder { location, ..b }),
            BlockBuilder::Proof(p) => BlockBuilder::Proof(ProofBuilder { serial: location.serial, ..p }),
            BlockBuilder::List(b) => BlockBuilder::List(ListBuilder { location, ..b }),
            BlockBuilder::Table(b) => BlockBuilder::Table(TableBuilder { location, ..b }),
            BlockBuilder::Quote(b) => BlockBuilder::Quote(QuoteBuilder { location, ..b }),
            BlockBuilder::Todo(t) => BlockBuilder::Todo(t),
            BlockBuilder::Heading(h) => BlockBuilder::Heading(h),
            BlockBuilder::Text(b) => BlockBuilder::Text(TextBlockBuilder { location, ..b }),
        }
    }
}

/// The location handed out to the `k`th block of a page whose first block is handed `start`.
pub open spec fn kth_location(start: BlockLocation, k: int) -> BlockLocation {
    BlockLocation { block: (start.block + k) as usize, serial: (start.serial + k) as usize, ..start }
}

impl PageBuilder {
    /// Places the blocks of the page, in order, at the locations that `location` hands out, one
    /// block after the other, then moves `location` to the next page.
    pub fn place_blocks(&mut self, location: &mut BlockLocation)
        requires
            old(location).block + old(self).blocks@.len() < usize::MAX,
            old(location).serial + old(self).blocks@.len() < usize::MAX,
            old(location).page < usize::MAX,
        ensures
            final(self).id == old(self).id,
            final(self).name == old(self).name,
            final(self).href == old(self).href,
            final(self).blocks@.len() == old(self).blocks@.len(),
            forall|k: int|
                0 <= k < old(self).blocks@.len() ==> #[trigger] final(self).blocks@[k] == located(
                    old(self).blocks@[k],
                    kth_location(*old(location), k),
                ),
            *final(location) == step_location(kth_location(*old(location), old(self).blocks@.len() as int), LocationStep::Page),
    {
        let ghost start = *location;
        let ghost original = self.blocks@;
        let mut rest: Vec<BlockBuilder> = Vec::new();
        std::mem::swap(&mut rest, &mut self.blocks);
        let total = rest.len();
        let mut placed: Vec<BlockBuilder> = Vec::new();
        let mut k: usize = 0;
        assert(original.skip(0) =~= original);
        while rest.len() > 0
            invariant
                k <= original.len(),
                original.len() == total,
                total + start.block < usize::MAX,
                total + start.serial < usize::MAX,
                rest@ == original.skip(k as int),
                *location == kth_location(start, k as int),
                placed@.len() == k,
                forall|j: int| 0 <= j < k ==> #[trigger] placed@[j] == located(original[j], kth_location(start, j)),
            decreases original.len() - k,
        {
            let block = rest.remove(0);
            proof {
                assert(original.skip(k + 1) =~= original.skip(k as int).remove(0));
            }
            let here = location.next_block();
            placed.push(block.set_location(here));
            k = k + 1;
        }
        self.blocks = placed;
        location.next_page();
    }
}

/// Whether a page is `before` with its blocks placed from `start` on (see
/// `PageBuilder::place_blocks`).
pub open spec fn page_placed(before: PageBuilder, after: PageBuilder, start: BlockLocation) -> bool {
    &&& after.id == before.id
    &&& after.name == before.name
    &&& after.href == before.href
    &&& after.blocks@.len() == before.blocks@.len()
    &&& forall|k: int|
        0 <= k < before.blocks@.len() ==> #[trigger] after.blocks@[k] == located(before.blocks@[k], kth_location(start, k))
}

/// Where the location stands after the blocks of a page are placed from `start` on.
pub open spec fn after_page(page: PageBuilder, start: BlockLocation) -> BlockLocation {
    step_location(kth_location(start, page.blocks@.len() as int), LocationStep::Page)
}

/// Where the location stands when the `p`th page of a list is reached, the first page being
/// reached at `start`.
pub open spec fn page_start(pages: Seq<PageBuilder>, start: BlockLocation, p: nat) -> BlockLocation
    decreases p,
{
    if p == 0 {
        start
    } else {
        after_page(pages[p - 1], page_start(pages, start, (p - 1) as nat))
    }
}

/// The number of blocks on the first `p` pages of a list.
pub open spec fn blocks_on_pages(pages: Seq<PageBuilder>, p: nat) -> nat
    decreases p,
{
    if p == 0 {
        0
    } else {
        blocks_on_pages(pages, (p - 1) as nat) + pages[p - 1].blocks@.len()
    }
}

/// Whether placing a list of pages from `start` on keeps every counter in range.
pub open spec fn pages_fit(pages: Seq<PageBuilder>, start: BlockLocation) -> bool {
    &&& start.block + blocks_on_pages(pages, pages.len()) < usize::MAX
    &&& start.serial + blocks_on_pages(pages, pages.len()) < usize::MAX
    &&& start.page + pages.len() < usize::MAX
}

proof fn lemma_page_start_counts(pages: Seq<PageBuilder>, start: BlockLocation, p: nat)
    requires
        p <= pages.len(),
        pages_fit(pages, start),
    ensures
        page_start(pages, start, p).serial == start.serial + blocks_on_pages(pages, p),
        page_start(pages, start, p).block <= start.block + blocks_on_pages(pages, p),
        page_start(pages, start, p).page == start.page + p,
        page_start(pages, start, p).chapter == start.chapter,
        page_start(pages, start, p).book == start.book,
        blocks_on_pages(pages, p) <= blocks_on_pages(pages, pages.len()),
    decreases p,
{
    lemma_blocks_grow(pages, p, pages.len());
    if p > 0 {
        lemma_page_start_counts(pages, start, (p - 1) as nat);
    }
}

proof fn lemma_blocks_grow(pages: Seq<PageBuilder>, p: nat, q: nat)
    requires
        p <= q <= pages.len(),
    ensures
        blocks_on_pages(pages, p) <= blocks_on_pages(pages, q),
    decreases q,
{
    if p < q {
        lemma_blocks_grow(pages, p, (q - 1) as nat);
    }
}

/// Places the pages of a list, in order, from `location` on (see `page_placed`).
fn place_pages(pages: Vec<PageBuilder>, location: &mut BlockLocation) -> (r: Vec<PageBuilder>)
    requires
        pages_fit(pages@, *old(location)),
    ensures
        r@.len() == pages@.len(),
        forall|p: int|
            0 <= p < pages@.len() ==> page_placed(pages@[p], #[trigger] r@[p], page_start(pages@, *old(location), p as nat)),
        *final(location) == page_start(pages@, *old(location), pages@.len()),
{
    let ghost start = *location;
    let ghost original = pages@;
    let mut rest = pages;
    let total = rest.len();
    let mut placed: Vec<PageBuilder> = Vec::new();
    let mut p: usize = 0;
    assert(original.skip(0) =~= original);
    while rest.len() > 0
        invariant
            p <= original.len(),
            original.len() == total,
            pages_fit(original, start),
            rest@ == original.skip(p as int),
            *location == page_start(original, start, p as nat),
            placed@.len() == p,
            forall|j: int|
                0 <= j < p ==> page_placed(original[j], #[trigger] placed@[j], page_start(original, start, j as nat)),
        decreases original.len() - p,
    {
        let mut page = rest.remove(0);
        proof {
            assert(original.skip(p + 1) =~= original.skip(p as int).remove(0));
            lemma_page_start_counts(original, start, p as nat);
            lemma_page_start_counts(original, start, (p + 1) as nat);
            assert(blocks_on_pages(original, (p + 1) as nat) == blocks_on_pages(original, p as nat)
                + original[p as int].blocks@.len());
        }
        page.place_blocks(location);
        placed.push(page);
        p = p + 1;
    }
    placed
}

impl ChapterBuilder {
    /// Places the blocks of the chapter, page by page (see `page_placed`), then moves `location`
    /// to the next chapter.
    pub fn place_blocks(&mut self, location: &mut BlockLocation)
        requires
            pages_fit(old(self).pages@, *old(location)),
            old(location).chapter < usize::MAX,
        ensures
            final(self).id == old(self).id,
            final(self).name == old(self).name,
            final(self).tagline == old(self).tagline,
            final(self).href == old(self).href,
            final(self).pages@.len() == old(self).pages@.len(),
            forall|p: int|
                0 <= p < old(self).pages@.len() ==> page_placed(
                    old(self).pages@[p],
                    #[trigger] final(self).pages@[p],
                    page_start(old(self).pages@, *old(location), p as nat),
                ),
            *final(location) == step_location(
                page_start(old(self).pages@, *old(location), old(self).pages@.len()),
                LocationStep::Chapter,
            ),
    {
        proof {
            lemma_page_start_counts(self.pages@, *location, self.pages@.len());
        }
        let mut pages: Vec<PageBuilder> = Vec::new();
        std::mem::swap(&mut pages, &mut self.pages);
        self.pages = place_pages(pages, location);
        location.next_chapter();
    }
}

/// Whether a chapter is `before` with its blocks placed from `start` on (see
/// `ChapterBuilder::place_blocks`).
pub open spec fn chapter_placed(before: ChapterBuilder, after: ChapterBuilder, start: BlockLocation) -> bool {
    &&& after.id == before.id
    &&& after.name == before.name
    &&& after.tagline == before.tagline
    &&& after.href == before.href
    &&& after.pages@.len() == before.pages@.len()
    &&& forall|p: int|
        0 <= p < before.pages@.len() ==> page_placed(
            before.pages@[p],
            #[trigger] after.pages@[p],
            page_start(before.pages@, start, p as nat),
        )
}

/// Where the location stands after the blocks of a chapter are placed from `start` on.
pub open spec fn after_chapter(chapter: ChapterBuilder, start: BlockLocation) -> BlockLocation {
    step_location(page_start(chapter.pages@, start, chapter.pages@.len()), LocationStep::Chapter)
}

/// Where the location stands when the `c`th chapter of a list is reached.
pub open spec fn chapter_start(chapters: Seq<ChapterBuilder>, start: BlockLocation, c: nat) -> BlockLocation
    decreases c,
{
    if c == 0 {
        start
    } else {
        after_chapter(chapters[c - 1], chapter_start(chapters, start, (c - 1) as nat))
    }
}

/// The number of blocks in the first `c` chapters of a list.
pub open spec fn blocks_in_chapters(chapters: Seq<ChapterBuilder>, c: nat) -> nat
    decreases c,
{
    if c == 0 {
        0
    } else {
        blocks_in_chapters(chapters, (c - 1) as nat) + blocks_on_pages(chapters[c - 1].pages@, chapters[c - 1].pages@.len())
    }
}

/// Whether placing a list of chapters from `start` on keeps every counter in range.
pub open spec fn chapters_fit(chapters: Seq<ChapterBuilder>, start: BlockLocation) -> bool {
    &&& start.block + blocks_in_chapters(chapters, chapters.len()) < usize::MAX
    &&& start.serial + blocks_in_chapters(chapters, chapters.len()) < usize::MAX
    &&& start.chapter + chapters.len() < usize::MAX
    &&& forall|c: int| 0 <= c < chapters.len() ==> start.page + (#[trigger] chapters[c]).pages@.len() < usize::MAX
}

proof fn lemma_chapter_blocks_grow(chapters: Seq<ChapterBuilder>, c: nat, d: nat)
    requires
        c <= d <= chapters.len(),
    ensures
        blocks_in_chapters(chapters, c) <= blocks_in_chapters(chapters, d),
    decreases d,
{
    if c < d {
        lemma_chapter_blocks_grow(chapters, c, (d - 1) as nat);
    }
}

proof fn lemma_chapter_start_counts(chapters: Seq<ChapterBuilder>, start: BlockLocation, c: nat)
    requires
        c <= chapters.len(),
        chapters_fit(chapters, start),
    ensures
        chapter_start(chapters, start, c).serial == start.serial + blocks_in_chapters(chapters, c),
        chapter_start(chapters, start, c).block <= start.block,
        chapter_start(chapters, start, c).page <= start.page,
        chapter_start(chapters, start, c).chapter == start.chapter + c,
        chapter_start(chapters, start, c).book == start.book,
    decreases c,
{
    lemma_chapter_blocks_grow(chapters, c, chapters.len());
    if c > 0 {
        let prev = chapter_start(chapters, start, (c - 1) as nat);
        lemma_chapter_start_counts(chapters, start, (c - 1) as nat);
        lemma_chapter_blocks_grow(chapters, (c - 1) as nat, chapters.len());
        lemma_chapter_blocks_grow(chapters, c, chapters.len());
        let pages = chapters[c - 1].pages@;
        assert(start.page + pages.len() < usize::MAX);
        assert(pages_fit(pages, prev));
        lemma_page_start_counts(pages, prev, pages.len());
    }
}

impl BookBuilder {
    /// Places the blocks of the book, chapter by chapter (see `chapter_placed`), then moves
    /// `location` to the next book.
    pub fn place_blocks(&mut self, location: &mut BlockLocation)
        requires
            chapters_fit(old(self).chapters@, *old(location)),
            old(location).book < usize::MAX,
        ensures
            final(self).id == old(self).id,
            final(self).name == old(self).name,
            final(self).tagline == old(self).tagline,
            final(self).href == old(self).href,
            final(self).chapters@.len() == old(self).chapters@.len(),
            forall|c: int|
                0 <= c < old(self).chapters@.len() ==> chapter_placed(
                    old(self).chapters@[c],
                    #[trigger] final(self).chapters@[c],
                    chapter_start(old(self).chapters@, *old(location), c as nat),
                ),
            *final(location) == step_location(
                chapter_start(old(self).chapters@, *old(location), old(self).chapters@.len()),
                LocationStep::Book,
            ),
    {
        let ghost start = *location;
        let ghost original = self.chapters@;
        let mut rest: Vec<ChapterBuilder> = Vec::new();
        std::mem::swap(&mut rest, &mut self.chapters);
        let total = rest.len();
        let mut placed: Vec<ChapterBuilder> = Vec::new();
        let mut c: usize = 0;
        assert(original.skip(0) =~= original);
        while rest.len() > 0
            invariant
                c <= original.len(),
                original.len() == total,
                chapters_fit(original, start),
                start.book < usize::MAX,
                rest@ == original.skip(c as int),
                *location == chapter_start(original, start, c as nat),
                placed@.len() == c,
                forall|j: int|
                    0 <= j < c ==> chapter_placed(original[j], #[trigger] placed@[j], chapter_start(original, start, j as nat)),
            decreases original.len() - c,
        {
            let mut chapter = rest.remove(0);
            proof {
                assert(original.skip(c + 1) =~= original.skip(c as int).remove(0));
                lemma_chapter_start_counts(original, start, c as nat);
                lemma_chapter_blocks_grow(original, (c + 1) as nat, original.len());
                assert(start.page + original[c as int].pages@.len() < usize::MAX);
            }
            chapter.place_blocks(location);
            placed.push(chapter);
            c = c + 1;
        }
        proof {
            lemma_chapter_start_counts(original, start, c as nat);
        }
        self.chapters = placed;
        location.next_book();
    }
}

/// Whether a book is `before` with its blocks placed from `start` on (see
/// `BookBuilder::place_blocks`).
pub open spec fn book_placed(before: BookBuilder, after: BookBuilder, start: BlockLocation) -> bool {
    &&& after.id == before.id
    &&& after.name == before.name
    &&& after.tagline == before.tagline
    &&& after.href == before.href
    &&& after.chapters@.len() == before.chapters@.len()
    &&& forall|c: int|
        0 <= c < before.chapters@.len() ==> chapter_placed(
            before.chapters@[c],
            #[trigger] after.chapters@[c],
            chapter_start(before.chapters@, start, c as nat),
        )
}

/// Where the location stands when the `b`th book of a list is reached.
pub open spec fn book_start(books: Seq<BookBuilder>, start: BlockLocation, b: nat) -> BlockLocation
    decreases b,
{
    if b == 0 {
        start
    } else {
        let prev = book_start(books, start, (b - 1) as nat);
        step_location(chapter_start(books[b - 1].chapters@, prev, books[b - 1].chapters@.len()), LocationStep::Book)
    }
}

/// The number of blocks in the first `b` books of a list.
pub open spec fn blocks_in_books(books: Seq<BookBuilder>, b: nat) -> nat
    decreases b,
{
    if b == 0 {
        0
    } else {
        blocks_in_books(books, (b - 1) as nat) + blocks_in_chapters(books[b - 1].chapters@, books[b - 1].chapters@.len())
    }
}

/// Whether placing the blocks of a library from its first location on keeps every counter in
/// range.
pub open spec fn library_fits(books: Seq<BookBuilder>) -> bool {
    &&& blocks_in_books(books, books.len()) < usize::MAX
    &&& books.len() < usize::MAX
    &&& forall|b: int| 0 <= b < books.len() ==> (#[trigger] books[b]).chapters@.len() < usize::MAX
    &&& forall|b: int, c: int|
        0 <= b < books.len() && 0 <= c < books[b].chapters@.len() ==> (#[trigger] books[b].chapters@[c]).pages@.len()
            < usize::MAX
}

proof fn lemma_book_blocks_grow(books: Seq<BookBuilder>, b: nat, d: nat)
    requires
        b <= d <= books.len(),
    ensures
        blocks_in_books(books, b) <= blocks_in_books(books, d),
    decreases d,
{
    if b < d {
        lemma_book_blocks_grow(books, b, (d - 1) as nat);
    }
}

/// The location at which the `b`th book is reached: its serial number counts the blocks of the
/// books before, and it stands at the start of that book.
proof fn lemma_book_start_counts(books: Seq<BookBuilder>, b: nat)
    requires
        b <= books.len(),
        library_fits(books),
    ensures
        book_start(books, BlockLocation { block: 0, page: 0, chapter: 0, book: 0, serial: 0 }, b) == (BlockLocation {
            block: 0,
            page: 0,
            chapter: 0,
            book: b as usize,
            serial: blocks_in_books(books, b) as usize,
        }),
    decreases b,
{
    lemma_book_blocks_grow(books, b, books.len());
    if b > 0 {
        let first = BlockLocation { block: 0, page: 0, chapter: 0, book: 0, serial: 0 };
        lemma_book_start_counts(books, (b - 1) as nat);
        lemma_book_blocks_grow(books, (b - 1) as nat, books.len());
        let prev = book_start(books, first, (b - 1) as nat);
        let chapters = books[b - 1].chapters@;
        assert(chapters_fit(chapters, prev)) by {
            assert forall|c: int| 0 <= c < chapters.len() implies prev.page + (#[trigger] chapters[c]).pages@.len() < usize::MAX by {
                assert(books[b - 1].chapters@[c].pages@.len() < usize::MAX);
            }
        }
        lemma_chapter_start_counts(chapters, prev, chapters.len());
    }
}

impl ManifestBuilder {
    /// Places the blocks of the library, book by book (see `book_placed`), from the location of
    /// its first block on.
    pub fn place_blocks(&mut self)
        requires
            library_fits(old(self).books@),
        ensures
            final(self).bibliography == old(self).bibliography,
            final(self).books@.len() == old(self).books@.len(),
            forall|b: int|
                0 <= b < old(self).books@.len() ==> book_placed(
                    old(self).books@[b],
                    #[trigger] final(self).books@[b],
                    book_start(old(self).books@, BlockLocation { block: 0, page: 0, chapter: 0, book: 0, serial: 0 }, b as nat),
                ),
    {
        let mut location = BlockLocation::new();
        let ghost start = location;
        let ghost original = self.books@;
        let mut rest: Vec<BookBuilder> = Vec::new();
        std::mem::swap(&mut rest, &mut self.books);
        let total = rest.len();
        let mut placed: Vec<BookBuilder> = Vec::new();
        let mut b: usize = 0;
        assert(original.skip(0) =~= original);
        while rest.len() > 0
            invariant
                b <= original.len(),
                original.len() == total,
                library_fits(original),
                start == (BlockLocation { block: 0, page: 0, chapter: 0, book: 0, serial: 0 }),
                rest@ == original.skip(b as int),
                location == book_start(original, start, b as nat),
                placed@.len() == b,
                forall|j: int|
                    0 <= j < b ==> book_placed(original[j], #[trigger] placed@[j], book_start(original, start, j as nat)),
            decreases original.len() - b,
        {
            let mut book = rest.remove(0);
            proof {
                assert(original.skip(b + 1) =~= original.skip(b as int).remove(0));
                lemma_book_start_counts(original, b as nat);
                lemma_book_blocks_grow(original, (b + 1) as nat, original.len());
                let chapters = original[b as int].chapters@;
                assert(chapters_fit(chapters, location)) by {
                    assert forall|c: int| 0 <= c < chapters.len() implies location.page + (#[trigger] chapters[c]).pages@.len()
                        < usize::MAX by {
                        assert(original[b as int].chapters@[c].pages@.len() < usize::MAX);
                    }
                }
            }
            book.place_blocks(&mut location);
            placed.push(book);
            b = b + 1;
        }
        self.books = placed;
    }
}

} // verus!
