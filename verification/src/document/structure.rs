use vstd::prelude::*;

verus! {

/// Where a block stands: its position on its page, the page in its chapter, the chapter in its
/// book and the book in the document, with a serial number that counts every block before it.
#[derive(Clone, Copy, PartialEq, Eq, Debug, Structural)]
pub struct BlockLocation {
    pub block: usize,
    pub page: usize,
    pub chapter: usize,
    pub book: usize,
    pub serial: usize,
}

impl BlockLocation {
    /// The location of the first block of the document.
    pub fn new() -> (r: BlockLocation)
        ensures
            r == (BlockLocation { block: 0, page: 0, chapter: 0, book: 0, serial: 0 }),
    {
        BlockLocation { block: 0, page: 0, chapter: 0, book: 0, serial: 0 }
    }

    /// Hands out the current location and moves to the next block of the same page.
    pub fn next_block(&mut self) -> (r: BlockLocation)
        requires
            old(self).block < usize::MAX,
            old(self).serial < usize::MAX,
        ensures
            r == *old(self),
            *final(self) == (BlockLocation {
                block: (old(self).block + 1) as usize,
                serial: (old(self).serial + 1) as usize,
                ..*old(self)
            }),
            *final(self) == step_location(*old(self), LocationStep::Block),
    {
        let ret = *self;
        self.block = self.block + 1;
        self.serial = self.serial + 1;
        ret
    }

    /// Moves to the first block of the next page.
    pub fn next_page(&mut self)
        requires
            old(self).page < usize::MAX,
        ensures
            *final(self) == (BlockLocation {
                page: (old(self).page + 1) as usize,
                block: 0,
                ..*old(self)
            }),
            *final(self) == step_location(*old(self), LocationStep::Page),
    {
        self.page = self.page + 1;
        self.block = 0;
    }

    /// Moves to the first block of the first page of the next chapter.
    pub fn next_chapter(&mut self)
        requires
            old(self).chapter < usize::MAX,
        ensures
            *final(self) == (BlockLocation {
                chapter: (old(self).chapter + 1) as usize,
                page: 0,
                block: 0,
                ..*old(self)
            }),
            *final(self) == step_location(*old(self), LocationStep::Chapter),
    {
        self.chapter = self.chapter + 1;
        self.page = 0;
        self.block = 0;
    }

    /// Moves to the first block of the first page of the first chapter of the next book.
    pub fn next_book(&mut self)
        requires
            old(self).book < usize::MAX,
        ensures
            *final(self) == (BlockLocation {
                book: (old(self).book + 1) as usize,
                chapter: 0,
                page: 0,
                block: 0,
                ..*old(self)
            }),
            *final(self) == step_location(*old(self), LocationStep::Book),
    {
        self.book = self.book + 1;
        self.chapter = 0;
        self.page = 0;
        self.block = 0;
    }

    pub fn block(&self) -> (r: usize)
        ensures
            r == self.block,
    {
        self.block
    }

    pub fn page(&self) -> (r: usize)
        ensures
            r == self.page,
    {
        self.page
    }

    pub fn chapter(&self) -> (r: usize)
        ensures
            r == self.chapter,
    {
        self.chapter
    }

    pub fn book(&self) -> (r: usize)
        ensures
            r == self.book,
    {
        self.book
    }

    pub fn serial(&self) -> (r: usize)
        ensures
            r == self.serial,
    {
        self.serial
    }
}

/// A move of a location: to the next block, page, chapter or book.
#[derive(Clone, Copy, PartialEq, Eq, Debug, Structural)]
pub enum LocationStep {
    Block,
    Page,
    Chapter,
    Book,
}

/// Where a location stands after a move (see `BlockLocation::next_block` and the others).
pub open spec fn step_location(l: BlockLocation, s: LocationStep) -> BlockLocation {
    match s {
        LocationStep::Block => BlockLocation { block: (l.block + 1) as usize, serial: (l.serial + 1) as usize, ..l },
        LocationStep::Page => BlockLocation { page: (l.page + 1) as usize, block: 0, ..l },
        LocationStep::Chapter => BlockLocation { chapter: (l.chapter + 1) as usize, page: 0, block: 0, ..l },
        LocationStep::Book => BlockLocation { book: (l.book + 1) as usize, chapter: 0, page: 0, block: 0, ..l },
    }
}

/// Where a new location stands after a sequence of moves.
pub open spec fn run_location(steps: Seq<LocationStep>) -> BlockLocation
    decreases steps.len(),
{
    if steps.len() == 0 {
        BlockLocation { block: 0, page: 0, chapter: 0, book: 0, serial: 0 }
    } else {
        step_location(run_location(steps.drop_last()), steps.last())
    }
}

/// The number of moves to the next block in a sequence of moves.
pub open spec fn block_moves(steps: Seq<LocationStep>) -> nat
    decreases steps.len(),
{
    if steps.len() == 0 {
        0
    } else {
        block_moves(steps.drop_last()) + if steps.last() == LocationStep::Block {
            1nat
        } else {
            0nat
        }
    }
}

/// The number of moves to the next block since the last move to a page, chapter or book (or
/// since the start).
pub open spec fn block_moves_since_page(steps: Seq<LocationStep>) -> nat
    decreases steps.len(),
{
    if steps.len() == 0 {
        0
    } else if steps.last() == LocationStep::Block {
        block_moves_since_page(steps.drop_last()) + 1
    } else {
        0
    }
}

/// After any sequence of moves from a new location, the serial number counts the moves to the
/// next block, and the block number counts those since the last move to a page, chapter or book.
pub proof fn law_location_counts_blocks(steps: Seq<LocationStep>)
    requires
        steps.len() <= usize::MAX,
    ensures
        run_location(steps).serial == block_moves(steps),
        run_location(steps).block == block_moves_since_page(steps),
        block_moves_since_page(steps) <= block_moves(steps) <= steps.len(),
    decreases steps.len(),
{
    if steps.len() > 0 {
        law_location_counts_blocks(steps.drop_last());
    }
}

/// The locations that moves to the next block hand out (`next_block` returns the location before
/// the move) have serial numbers in increasing order: the `n`th one handed out has the serial
/// number `n`, counting from zero.
pub proof fn law_handed_out_serials_increase(steps: Seq<LocationStep>, i: int, j: int)
    requires
        steps.len() <= usize::MAX,
        0 <= i < j < steps.len(),
        steps[i] == LocationStep::Block,
    ensures
        run_location(steps.take(i)).serial == block_moves(steps.take(i)),
        run_location(steps.take(i)).serial < run_location(steps.take(j)).serial,
    decreases j - i,
{
    law_location_counts_blocks(steps.take(i));
    law_location_counts_blocks(steps.take(j));
    lemma_block_moves_grow(steps, i, j);
}

/// The moves to the next block among the first `j` moves outnumber those among the first `i`
/// where a move to the next block stands between.
proof fn lemma_block_moves_grow(steps: Seq<LocationStep>, i: int, j: int)
    requires
        0 <= i < j <= steps.len(),
        steps[i] == LocationStep::Block,
    ensures
        block_moves(steps.take(i)) < block_moves(steps.take(j)),
    decreases j - i,
{
    assert(steps.take(j).drop_last() =~= steps.take(j - 1));
    if j == i + 1 {
        assert(steps.take(j).last() == steps[i]);
    } else {
        lemma_block_moves_grow(steps, i, j - 1);
    }
}

} // verus!
