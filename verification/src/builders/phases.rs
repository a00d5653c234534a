//! What one stage of building a library leaves for the next: a library that indexes and checks
//! without error has every symbol ready for its operator.
use vstd::prelude::*;

use super::index::BuilderIndex;
use super::structure::{
    book_check, books_run, books_witness, chain_errors, chapter_check, chapters_run, chapters_witness, index_errors,
    index_run, index_step, indexed, joined, library_check, operator_ready, page_check, page_witness, pages_operator_ready,
    pages_run, pages_witness, valid_chain, BlockBuilder, BookBuilder, ChapterBuilder, IndexModel, ManifestBuilder,
    PageBuilder,
};
use super::errors::ParsingError;

verus! {

/// Whether the system of a symbol block is among `systems`; other blocks ask nothing.
pub open spec fn symbol_system_in(block: BlockBuilder, systems: Map<Seq<char>, usize>) -> bool {
    match block {
        BlockBuilder::Symbol(b) => systems.contains_key(b.system_id@),
        _ => true,
    }
}

/// Whether the systems of the symbols of a page are among `systems`.
pub open spec fn page_symbols_in(page: PageBuilder, systems: Map<Seq<char>, usize>) -> bool {
    forall|k: int| 0 <= k < page.blocks@.len() ==> symbol_system_in(#[trigger] page.blocks@[k], systems)
}

/// Whether the systems of the symbols of a chapter are among `systems`.
pub open spec fn chapter_symbols_in(chapter: ChapterBuilder, systems: Map<Seq<char>, usize>) -> bool {
    forall|p: int| 0 <= p < chapter.pages@.len() ==> page_symbols_in(#[trigger] chapter.pages@[p], systems)
}

/// Whether the systems of the symbols of a book are among `systems`.
pub open spec fn book_symbols_in(book: BookBuilder, systems: Map<Seq<char>, usize>) -> bool {
    forall|c: int| 0 <= c < book.chapters@.len() ==> chapter_symbols_in(#[trigger] book.chapters@[c], systems)
}

/// Every system of `a` is one of `b`.
pub open spec fn keeps(a: Map<Seq<char>, usize>, b: Map<Seq<char>, usize>) -> bool {
    forall|k: Seq<char>| a.contains_key(k) ==> #[trigger] b.contains_key(k)
}

proof fn lemma_page_symbols_grow(page: PageBuilder, a: Map<Seq<char>, usize>, b: Map<Seq<char>, usize>)
    requires
        page_symbols_in(page, a),
        keeps(a, b),
    ensures
        page_symbols_in(page, b),
{
    assert forall|k: int| 0 <= k < page.blocks@.len() implies symbol_system_in(#[trigger] page.blocks@[k], b) by {
        assert(symbol_system_in(page.blocks@[k], a));
    }
}

proof fn lemma_chapter_symbols_grow(chapter: ChapterBuilder, a: Map<Seq<char>, usize>, b: Map<Seq<char>, usize>)
    requires
        chapter_symbols_in(chapter, a),
        keeps(a, b),
    ensures
        chapter_symbols_in(chapter, b),
{
    assert forall|p: int| 0 <= p < chapter.pages@.len() implies page_symbols_in(#[trigger] chapter.pages@[p], b) by {
        lemma_page_symbols_grow(chapter.pages@[p], a, b);
    }
}

proof fn lemma_book_symbols_grow(book: BookBuilder, a: Map<Seq<char>, usize>, b: Map<Seq<char>, usize>)
    requires
        book_symbols_in(book, a),
        keeps(a, b),
    ensures
        book_symbols_in(book, b),
{
    assert forall|c: int| 0 <= c < book.chapters@.len() implies chapter_symbols_in(#[trigger] book.chapters@[c], b) by {
        lemma_chapter_symbols_grow(book.chapters@[c], a, b);
    }
}

/// Indexing blocks keeps every system, and where it finds no error, the system of every symbol
/// among them was there.
proof fn lemma_index_run_symbols(blocks: Seq<BlockBuilder>, model: IndexModel, n: nat)
    requires
        n <= blocks.len(),
    ensures
        keeps(model.systems, index_run(blocks, model, n).0.systems),
        index_run(blocks, model, n).1.len() == 0 ==> forall|k: int|
            0 <= k < n ==> symbol_system_in(#[trigger] blocks[k], index_run(blocks, model, n).0.systems),
    decreases n,
{
    if n > 0 {
        lemma_index_run_symbols(blocks, model, (n - 1) as nat);
        let before = index_run(blocks, model, (n - 1) as nat);
        let step = index_step(blocks[n - 1], before.0);
        assert(keeps(before.0.systems, step.0.systems));
        if index_run(blocks, model, n).1.len() == 0 {
            assert forall|k: int| 0 <= k < n implies symbol_system_in(#[trigger] blocks[k], step.0.systems) by {
                if k < n - 1 {
                    assert(symbol_system_in(blocks[k], before.0.systems));
                }
            }
        }
    }
}

/// Indexing pages keeps every system, and where it finds no error, the system of every symbol
/// on them was there.
proof fn lemma_pages_run_symbols(pages: Seq<PageBuilder>, model: IndexModel, n: nat)
    requires
        n <= pages.len(),
    ensures
        keeps(model.systems, pages_run(pages, model, n).0.systems),
        pages_run(pages, model, n).1.len() == 0 ==> forall|p: int|
            0 <= p < n ==> page_symbols_in(#[trigger] pages[p], pages_run(pages, model, n).0.systems),
    decreases n,
{
    if n > 0 {
        lemma_pages_run_symbols(pages, model, (n - 1) as nat);
        let before = pages_run(pages, model, (n - 1) as nat);
        let blocks = pages[n - 1].blocks@;
        lemma_index_run_symbols(blocks, before.0, blocks.len());
        let after = index_run(blocks, before.0, blocks.len()).0;
        if pages_run(pages, model, n).1.len() == 0 {
            assert forall|p: int| 0 <= p < n implies page_symbols_in(#[trigger] pages[p], after.systems) by {
                if p < n - 1 {
                    lemma_page_symbols_grow(pages[p], before.0.systems, after.systems);
                }
            }
        }
    }
}

/// Indexing chapters keeps every system, and where it finds no error, the system of every symbol
/// in them was there.
proof fn lemma_chapters_run_symbols(chapters: Seq<ChapterBuilder>, model: IndexModel, n: nat)
    requires
        n <= chapters.len(),
    ensures
        keeps(model.systems, chapters_run(chapters, model, n).0.systems),
        chapters_run(chapters, model, n).1.len() == 0 ==> forall|c: int|
            0 <= c < n ==> chapter_symbols_in(#[trigger] chapters[c], chapters_run(chapters, model, n).0.systems),
    decreases n,
{
    if n > 0 {
        lemma_chapters_run_symbols(chapters, model, (n - 1) as nat);
        let before = chapters_run(chapters, model, (n - 1) as nat);
        let pages = chapters[n - 1].pages@;
        lemma_pages_run_symbols(pages, before.0, pages.len());
        let after = pages_run(pages, before.0, pages.len()).0;
        if chapters_run(chapters, model, n).1.len() == 0 {
            assert forall|c: int| 0 <= c < n implies chapter_symbols_in(#[trigger] chapters[c], after.systems) by {
                if c < n - 1 {
                    lemma_chapter_symbols_grow(chapters[c], before.0.systems, after.systems);
                }
            }
        }
    }
}

/// Indexing books keeps every system, and where it finds no error, the system of every symbol
/// in them was there.
proof fn lemma_books_run_symbols(books: Seq<BookBuilder>, model: IndexModel, n: nat)
    requires
        n <= books.len(),
    ensures
        keeps(model.systems, books_run(books, model, n).0.systems),
        books_run(books, model, n).1.len() == 0 ==> forall|b: int|
            0 <= b < n ==> book_symbols_in(#[trigger] books[b], books_run(books, model, n).0.systems),
    decreases n,
{
    if n > 0 {
        lemma_books_run_symbols(books, model, (n - 1) as nat);
        let before = books_run(books, model, (n - 1) as nat);
        let chapters = books[n - 1].chapters@;
        lemma_chapters_run_symbols(chapters, before.0, chapters.len());
        let after = chapters_run(chapters, before.0, chapters.len()).0;
        if books_run(books, model, n).1.len() == 0 {
            assert forall|b: int| 0 <= b < n implies book_symbols_in(#[trigger] books[b], after.systems) by {
                if b < n - 1 {
                    lemma_book_symbols_grow(books[b], before.0.systems, after.systems);
                }
            }
        }
    }
}

/// Whether a symbol block has a type; other blocks ask nothing.
pub open spec fn symbol_typed(block: BlockBuilder) -> bool {
    match block {
        BlockBuilder::Symbol(b) => b.entries.type_signatures@.len() > 0,
        _ => true,
    }
}

/// Whether every symbol of a page has a type.
pub open spec fn page_typed(page: PageBuilder) -> bool {
    forall|k: int| 0 <= k < page.blocks@.len() ==> symbol_typed(#[trigger] page.blocks@[k])
}

/// Whether every symbol of a chapter has a type.
pub open spec fn chapter_typed(chapter: ChapterBuilder) -> bool {
    forall|p: int| 0 <= p < chapter.pages@.len() ==> page_typed(#[trigger] chapter.pages@[p])
}

/// Whether every symbol of a book has a type.
pub open spec fn book_typed(book: BookBuilder) -> bool {
    forall|c: int| 0 <= c < book.chapters@.len() ==> chapter_typed(#[trigger] book.chapters@[c])
}

/// Along a chain of indexes in which each keeps the systems of the one before, the last has the
/// systems of the first.
proof fn lemma_systems_chain(states: Seq<BuilderIndex>, n: nat)
    requires
        n < states.len(),
        forall|k: int| 0 <= k < n ==> (#[trigger] states[k + 1]).systems == states[k].systems,
    ensures
        states[n as int].systems == states[0].systems,
    decreases n,
{
    if n > 0 {
        assert(states[(n - 1) + 1].systems == states[n - 1].systems);
        lemma_systems_chain(states, (n - 1) as nat);
    }
}

/// A concatenation of parts is empty only where every part is.
proof fn lemma_joined_empty(parts: Seq<Seq<ParsingError>>)
    requires
        joined(parts).len() == 0,
    ensures
        forall|k: int| 0 <= k < parts.len() ==> (#[trigger] parts[k]).len() == 0,
    decreases parts.len(),
{
    if parts.len() > 0 {
        lemma_joined_empty(parts.drop_last());
        assert forall|k: int| 0 <= k < parts.len() implies (#[trigger] parts[k]).len() == 0 by {
            if k < parts.len() - 1 {
                assert(parts[k] == parts.drop_last()[k]);
            }
        }
    }
}

/// Checking the first `m` blocks of a chain without error keeps the systems, and every symbol
/// among them has a type.
proof fn lemma_chain_clean(blocks: Seq<BlockBuilder>, states: Seq<BuilderIndex>, n: nat, m: nat)
    requires
        valid_chain(blocks, states, n),
        m <= n,
        chain_errors(blocks, states, m).len() == 0,
    ensures
        forall|k: int| 0 <= k < m ==> symbol_typed(#[trigger] blocks[k]),
        states[m as int].systems == states[0].systems,
    decreases m,
{
    if m > 0 {
        lemma_chain_clean(blocks, states, n, (m - 1) as nat);
        let k = m - 1;
        assert(super::structure::check_step(blocks[k], states[k], states[k + 1]));
        match blocks[k] {
            BlockBuilder::Symbol(b) => {
                let found = super::language::symbol_entries_check(b.entries, b.system_id@, b.location.serial, states[k]).1;
                assert(found.len() == 0);
            },
            _ => {},
        }
    }
}

/// Checking a page without error keeps the systems, and every symbol on it has a type.
proof fn lemma_page_clean(page: PageBuilder, before: BuilderIndex, after: BuilderIndex, errors: Seq<ParsingError>)
    requires
        page_check(page, before, after, errors),
        errors.len() == 0,
    ensures
        page_typed(page),
        after.systems == before.systems,
{
    let states = choose|states: Seq<BuilderIndex>| page_witness(page, before, after, errors, states);
    lemma_chain_clean(page.blocks@, states, page.blocks@.len(), page.blocks@.len());
}

/// Checking a chapter without error keeps the systems, and every symbol in it has a type.
proof fn lemma_chapter_clean(
    chapter: ChapterBuilder,
    position: usize,
    before: BuilderIndex,
    after: BuilderIndex,
    errors: Seq<ParsingError>,
)
    requires
        chapter_check(chapter, position, before, after, errors),
        errors.len() == 0,
    ensures
        chapter_typed(chapter),
        after.systems == before.systems,
{
    let (states, parts) = choose|states: Seq<BuilderIndex>, parts: Seq<Seq<ParsingError>>|
        pages_witness(chapter.pages@, before, after, states, parts) && errors == super::text::paragraph_errors(
            chapter.tagline,
            before,
            None,
        ).map_values(
            |e: super::errors::ParagraphParsingError|
                ParsingError::ChapterError(position, super::errors::ChapterParsingError::TaglineError(e)),
        ) + joined(parts);
    lemma_joined_empty(parts);
    let pages = chapter.pages@;
    assert forall|k: int| 0 <= k < pages.len() implies page_typed(#[trigger] pages[k]) by {
        lemma_page_clean(pages[k], states[k], states[k + 1], parts[k]);
    }
    assert forall|k: int| 0 <= k < pages.len() implies (#[trigger] states[k + 1]).systems == states[k].systems by {
        lemma_page_clean(pages[k], states[k], states[k + 1], parts[k]);
    }
    lemma_systems_chain(states, pages.len());
}

/// Checking a book without error keeps the systems, and every symbol in it has a type.
proof fn lemma_book_clean(
    book: BookBuilder,
    position: usize,
    before: BuilderIndex,
    after: BuilderIndex,
    errors: Seq<ParsingError>,
)
    requires
        book_check(book, position, before, after, errors),
        errors.len() == 0,
    ensures
        book_typed(book),
        after.systems == before.systems,
{
    let (states, parts) = choose|states: Seq<BuilderIndex>, parts: Seq<Seq<ParsingError>>|
        chapters_witness(book.chapters@, before, after, states, parts) && errors == super::text::paragraph_errors(
            book.tagline,
            before,
            None,
        ).map_values(
            |e: super::errors::ParagraphParsingError|
                ParsingError::BookError(position, super::errors::BookParsingError::TaglineError(e)),
        ) + joined(parts);
    lemma_joined_empty(parts);
    let chapters = book.chapters@;
    assert forall|k: int| 0 <= k < chapters.len() implies chapter_typed(#[trigger] chapters[k]) by {
        lemma_chapter_clean(chapters[k], k as usize, states[k], states[k + 1], parts[k]);
    }
    assert forall|k: int| 0 <= k < chapters.len() implies (#[trigger] states[k + 1]).systems == states[k].systems by {
        lemma_chapter_clean(chapters[k], k as usize, states[k], states[k + 1], parts[k]);
    }
    lemma_systems_chain(states, chapters.len());
}

/// Checking a library without error keeps the systems, and every symbol in it has a type.
proof fn lemma_library_clean(manifest: ManifestBuilder, before: BuilderIndex, after: BuilderIndex)
    requires
        library_check(manifest, before, after, seq![]),
    ensures
        forall|b: int| 0 <= b < manifest.books@.len() ==> book_typed(#[trigger] manifest.books@[b]),
        after.systems == before.systems,
{
    let errors: Seq<ParsingError> = seq![];
    let (states, parts) = choose|states: Seq<BuilderIndex>, parts: Seq<Seq<ParsingError>>|
        books_witness(manifest.books@, before, after, states, parts) && errors == joined(parts) + match manifest.bibliography {
            Some(bib) => super::structure::tagged_bib_errors(
                super::bibliography::bib_entries_errors(bib.entries@, bib.entries@.len()),
            ),
            None => seq![],
        };
    let bib_part = match manifest.bibliography {
        Some(bib) => super::structure::tagged_bib_errors(
            super::bibliography::bib_entries_errors(bib.entries@, bib.entries@.len()),
        ),
        None => Seq::<ParsingError>::empty(),
    };
    assert(books_witness(manifest.books@, before, after, states, parts));
    assert(errors == joined(parts) + bib_part);
    assert((joined(parts) + bib_part).len() == joined(parts).len() + bib_part.len());
    assert(joined(parts).len() == 0);
    lemma_joined_empty(parts);
    let books = manifest.books@;
    assert forall|k: int| 0 <= k < books.len() implies book_typed(#[trigger] books[k]) by {
        lemma_book_clean(books[k], k as usize, states[k], states[k + 1], parts[k]);
    }
    assert forall|k: int| 0 <= k < books.len() implies (#[trigger] states[k + 1]).systems == states[k].systems by {
        lemma_book_clean(books[k], k as usize, states[k], states[k + 1], parts[k]);
    }
    lemma_systems_chain(states, books.len());
}

/// A library whose index was built and checked without error is ready for the operators of its
/// symbols: every symbol has a type, and its system is in the index that checking left.
pub proof fn law_clean_library_is_ready(manifest: ManifestBuilder, before: BuilderIndex, after: BuilderIndex)
    requires
        index_errors(manifest).len() == 0,
        indexed(manifest, before),
        library_check(manifest, before, after, seq![]),
    ensures
        forall|b: int, c: int|
            0 <= b < manifest.books@.len() && 0 <= c < manifest.books@[b].chapters@.len() ==> pages_operator_ready(
                #[trigger] manifest.books@[b].chapters@[c].pages@,
                after,
            ),
{
    let books = manifest.books@;
    let start = super::structure::empty_model();
    lemma_books_run_symbols(books, start, books.len());
    lemma_library_clean(manifest, before, after);
    let systems = books_run(books, start, books.len()).0.systems;
    assert(before.systems.model() == systems);
    assert forall|b: int, c: int|
        0 <= b < books.len() && 0 <= c < books[b].chapters@.len() implies pages_operator_ready(
        #[trigger] books[b].chapters@[c].pages@,
        after,
    ) by {
        let chapter = books[b].chapters@[c];
        assert(book_symbols_in(books[b], systems));
        assert(book_typed(books[b]));
        assert(chapter_symbols_in(chapter, systems));
        assert(chapter_typed(chapter));
        assert forall|p: int, i: int|
            0 <= p < chapter.pages@.len() && 0 <= i < chapter.pages@[p].blocks@.len() implies operator_ready(
            #[trigger] chapter.pages@[p].blocks@[i],
            after,
        ) by {
            assert(page_symbols_in(chapter.pages@[p], systems));
            assert(page_typed(chapter.pages@[p]));
            assert(symbol_system_in(chapter.pages@[p].blocks@[i], systems));
            assert(symbol_typed(chapter.pages@[p].blocks@[i]));
        }
    }
}

} // verus!
