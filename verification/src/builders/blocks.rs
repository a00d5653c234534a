//! The blocks of a page that hold text: lists, tables, quotes, notes left to do, headings and
//! plain text, with the checks that each must pass.
use vstd::prelude::*;

use super::directory::BibliographyBuilderRef;
use super::errors::{
    ParagraphParsingError, QuoteParsingError, QuoteValueParsingError, TableParsingError, TextParsingError,
};
use super::index::BuilderIndex;
use super::language::{check_texts, texts_check, texts_no_tag_references};
use super::text::{
    citations_known, paragraph_bib_refs, text_bib_refs, text_citations_known, no_tag_references, paragraph_errors, paragraph_ok, text_check, text_no_tag_references, unformatted_element_ok,
    ParagraphBuilder, TextBuilder, UnformattedBuilder, UnformattedBuilderElement,
};
use crate::document::structure::BlockLocation;
use crate::document::text::HeadingLevel;

verus! {

/// Whether no paragraph of a list refers to a tag.
pub open spec fn paragraphs_no_tag_references(paragraphs: Seq<ParagraphBuilder>) -> bool {
    forall|i: int| 0 <= i < paragraphs.len() ==> no_tag_references(#[trigger] paragraphs[i])
}

/// What checking the first `n` paragraphs of a list yields: whether all passed, and their
/// errors, each with the position of its paragraph.
pub open spec fn paragraphs_check(paragraphs: Seq<ParagraphBuilder>, index: BuilderIndex, n: nat) -> (bool, Seq<
    (usize, ParagraphParsingError),
>)
    decreases n,
{
    if n == 0 || n > paragraphs.len() {
        (true, seq![])
    } else {
        let before = paragraphs_check(paragraphs, index, (n - 1) as nat);
        let p = paragraphs[n - 1];
        (
            before.0 && paragraph_ok(p, index, None),
            before.1 + paragraph_errors(p, index, None).map_values(
                |e: ParagraphParsingError| ((n - 1) as usize, e),
            ),
        )
    }
}

/// Checks paragraphs in order.
pub(crate) fn check_paragraphs(paragraphs: &Vec<ParagraphBuilder>, index: &BuilderIndex) -> (r: (
    bool,
    Vec<(usize, ParagraphParsingError)>,
))
    requires
        index.wf(),
        paragraphs_no_tag_references(paragraphs@),
    ensures
        r.0 == paragraphs_check(paragraphs@, *index, paragraphs@.len()).0,
        r.1@ == paragraphs_check(paragraphs@, *index, paragraphs@.len()).1,
{
    let mut ok = true;
    let mut errors: Vec<(usize, ParagraphParsingError)> = Vec::new();
    let mut i: usize = 0;
    while i < paragraphs.len()
        invariant
            i <= paragraphs@.len(),
            index.wf(),
            paragraphs_no_tag_references(paragraphs@),
            (ok, errors@) == paragraphs_check(paragraphs@, *index, i as nat),
        decreases paragraphs@.len() - i,
    {
        let (passed, inner) = paragraphs[i].verify_structure(index);
        let ghost before = errors@;
        let mut j: usize = 0;
        while j < inner.len()
            invariant
                j <= inner@.len(),
                errors@ == before + inner@.take(j as int).map_values(|e: ParagraphParsingError| (i, e)),
            decreases inner@.len() - j,
        {
            errors.push((i, inner[j]));
            proof {
                assert(inner@.take(j + 1) =~= inner@.take(j as int).push(inner@[j as int]));
                assert(errors@ =~= before + inner@.take(j + 1).map_values(|e: ParagraphParsingError| (i, e)));
            }
            j = j + 1;
        }
        proof {
            assert(inner@.take(j as int) =~= inner@);
        }
        ok = ok && passed;
        i = i + 1;
    }
    (ok, errors)
}

/// A list of paragraphs, numbered or not.
pub struct ListBuilder {
    pub ordered: bool,
    pub items: Vec<ParagraphBuilder>,
    pub location: BlockLocation,
}

impl ListBuilder {
    /// Checks every item; each error comes with the position of its item.
    pub fn verify_structure(&self, index: &BuilderIndex) -> (r: Vec<(usize, ParagraphParsingError)>)
        requires
            index.wf(),
            paragraphs_no_tag_references(self.items@),
        ensures
            r@ == paragraphs_check(self.items@, *index, self.items@.len()).1,
    {
        let (_, errors) = check_paragraphs(&self.items, index);
        errors
    }
}

/// A row of a table: its cells, in order.
pub struct TableBuilderRow {
    pub cells: Vec<ParagraphBuilder>,
}

/// Whether no cell of a row refers to a tag.
pub open spec fn rows_no_tag_references(rows: Seq<TableBuilderRow>) -> bool {
    forall|i: int| 0 <= i < rows.len() ==> paragraphs_no_tag_references(#[trigger] rows[i].cells@)
}

/// The errors of the cells of the first `n` rows of a list, each with the positions of its row
/// and of its cell.
pub open spec fn rows_errors(rows: Seq<TableBuilderRow>, index: BuilderIndex, n: nat) -> Seq<TableParsingError>
    decreases n,
{
    if n == 0 || n > rows.len() {
        seq![]
    } else {
        let cells = rows[n - 1].cells@;
        rows_errors(rows, index, (n - 1) as nat) + paragraphs_check(cells, index, cells.len()).1.map_values(
            |e: (usize, ParagraphParsingError)| TableParsingError::CellError((n - 1) as usize, e.0, e.1),
        )
    }
}

/// The rows of a part of a table that may be missing.
pub open spec fn part_rows(part: Option<Vec<TableBuilderRow>>) -> Seq<TableBuilderRow> {
    match part {
        Some(rows) => rows@,
        None => seq![],
    }
}

/// A table: rows of a head, a body and a foot, each part optional, and an optional caption.
pub struct TableBuilder {
    pub location: BlockLocation,
    pub head: Option<Vec<TableBuilderRow>>,
    pub body: Option<Vec<TableBuilderRow>>,
    pub foot: Option<Vec<TableBuilderRow>>,
    pub caption: Option<ParagraphBuilder>,
}

/// All rows of a table: the head, the body and the foot in turn.
pub open spec fn table_rows(table: TableBuilder) -> Seq<TableBuilderRow> {
    part_rows(table.head) + part_rows(table.body) + part_rows(table.foot)
}

/// The errors of a table: those of its cells, row by row, then those of its caption.
pub open spec fn table_errors(table: TableBuilder, index: BuilderIndex) -> Seq<TableParsingError> {
    let rows = table_rows(table);
    rows_errors(rows, index, rows.len()) + match table.caption {
        Some(caption) => paragraph_errors(caption, index, None).map_values(
            |e: ParagraphParsingError| TableParsingError::CaptionError(e),
        ),
        None => seq![],
    }
}

impl TableBuilderRow {
    /// Checks the cells of the row; each error comes with the position of its cell.
    pub fn verify_structure(&self, index: &BuilderIndex) -> (r: Vec<(usize, ParagraphParsingError)>)
        requires
            index.wf(),
            paragraphs_no_tag_references(self.cells@),
        ensures
            r@ == paragraphs_check(self.cells@, *index, self.cells@.len()).1,
    {
        let (_, errors) = check_paragraphs(&self.cells, index);
        errors
    }
}

/// Checks a part of a table whose first row is row `offset` of the whole table.
fn check_rows(
    part: &Option<Vec<TableBuilderRow>>,
    offset: usize,
    Ghost(all): Ghost<Seq<TableBuilderRow>>,
    index: &BuilderIndex,
    errors: &mut Vec<TableParsingError>,
) -> (r: usize)
    requires
        index.wf(),
        all.len() <= usize::MAX,
        offset + part_rows(*part).len() <= all.len(),
        all.subrange(offset as int, offset + part_rows(*part).len()) == part_rows(*part),
        rows_no_tag_references(all),
        old(errors)@ == rows_errors(all, *index, offset as nat),
    ensures
        r == offset + part_rows(*part).len(),
        final(errors)@ == rows_errors(all, *index, r as nat),
{
    match part {
        None => offset,
        Some(rows) => {
            let mut k: usize = 0;
            while k < rows.len()
                invariant
                    k <= rows@.len(),
                    index.wf(),
                    all.len() <= usize::MAX,
                    offset + rows@.len() <= all.len(),
                    all.subrange(offset as int, offset + rows@.len()) == rows@,
                    rows_no_tag_references(all),
                    errors@ == rows_errors(all, *index, (offset + k) as nat),
                decreases rows@.len() - k,
            {
                assert(all[offset + k] == rows@[k as int]);
                let row = offset + k;
                let cells = rows[k].verify_structure(index);
                let ghost before = errors@;
                let mut j: usize = 0;
                while j < cells.len()
                    invariant
                        j <= cells@.len(),
                        errors@ == before + cells@.take(j as int).map_values(
                            |e: (usize, ParagraphParsingError)| TableParsingError::CellError(row, e.0, e.1),
                        ),
                    decreases cells@.len() - j,
                {
                    let (c, e) = cells[j];
                    errors.push(TableParsingError::CellError(row, c, e));
                    proof {
                        assert(cells@.take(j + 1) =~= cells@.take(j as int).push(cells@[j as int]));
                        assert(errors@ =~= before + cells@.take(j + 1).map_values(
                            |e: (usize, ParagraphParsingError)| TableParsingError::CellError(row, e.0, e.1),
                        ));
                    }
                    j = j + 1;
                }
                proof {
                    assert(cells@.take(j as int) =~= cells@);
                }
                k = k + 1;
            }
            offset + k
        },
    }
}

impl TableBuilder {
    /// Checks every cell, row by row, then the caption.
    pub fn verify_structure(&self, index: &BuilderIndex) -> (r: Vec<TableParsingError>)
        requires
            index.wf(),
            table_rows(*self).len() <= usize::MAX,
            rows_no_tag_references(table_rows(*self)),
            self.caption matches Some(c) ==> no_tag_references(c),
        ensures
            r@ == table_errors(*self, *index),
    {
        let ghost all = table_rows(*self);
        let ghost head = part_rows(self.head);
        let ghost body = part_rows(self.body);
        let ghost foot = part_rows(self.foot);
        let mut errors: Vec<TableParsingError> = Vec::new();
        assert(all.subrange(0, head.len() as int) =~= head);
        let n = check_rows(&self.head, 0, Ghost(all), index, &mut errors);
        assert(all.subrange(n as int, n + body.len()) =~= body);
        let n = check_rows(&self.body, n, Ghost(all), index, &mut errors);
        assert(all.subrange(n as int, n + foot.len()) =~= foot);
        let n = check_rows(&self.foot, n, Ghost(all), index, &mut errors);
        match &self.caption {
            Some(caption) => {
                let (_, inner) = caption.verify_structure(index);
                let ghost before = errors@;
                let mut j: usize = 0;
                while j < inner.len()
                    invariant
                        j <= inner@.len(),
                        errors@ == before + inner@.take(j as int).map_values(
                            |e: ParagraphParsingError| TableParsingError::CaptionError(e),
                        ),
                    decreases inner@.len() - j,
                {
                    errors.push(TableParsingError::CaptionError(inner[j]));
                    proof {
                        assert(inner@.take(j + 1) =~= inner@.take(j as int).push(inner@[j as int]));
                        assert(errors@ =~= before + inner@.take(j + 1).map_values(
                            |e: ParagraphParsingError| TableParsingError::CaptionError(e),
                        ));
                    }
                    j = j + 1;
                }
                proof {
                    assert(inner@.take(j as int) =~= inner@);
                }
            },
            None => {
                assert(errors@ =~= errors@ + Seq::<TableParsingError>::empty());
            },
        }
        errors
    }
}

/// A quotation from an entry of the bibliography, named by its key.
pub struct QuoteValueBuilder {
    pub bib_key: String,
    pub quote: UnformattedBuilder,
}

impl QuoteValueBuilder {
    /// The key must name an entry of the bibliography.
    pub fn verify_structure(&self, index: &BuilderIndex) -> (r: Option<QuoteValueParsingError>)
        requires
            index.wf(),
        ensures
            r == (if index.has_bib_key(self.bib_key@) {
                None
            } else {
                Some(QuoteValueParsingError::BibKeyNotFound)
            }),
    {
        match index.search_bib_ref(self.bib_key.as_str()) {
            Some(_) => None,
            None => Some(QuoteValueParsingError::BibKeyNotFound),
        }
    }
}

/// A quotation, with the original it translates where there is one.
pub struct QuoteBuilder {
    pub location: BlockLocation,
    pub original: Option<QuoteValueBuilder>,
    pub value: QuoteValueBuilder,
}

/// The error of a quotation, if any.
pub open spec fn quote_value_error(value: QuoteValueBuilder, index: BuilderIndex) -> Option<QuoteValueParsingError> {
    if index.has_bib_key(value.bib_key@) {
        None
    } else {
        Some(QuoteValueParsingError::BibKeyNotFound)
    }
}

/// The errors of a quote: that of the original, then that of the quotation.
pub open spec fn quote_errors(quote: QuoteBuilder, index: BuilderIndex) -> Seq<QuoteParsingError> {
    let original = match quote.original {
        Some(original) => match quote_value_error(original, index) {
            Some(e) => seq![QuoteParsingError::OriginalError(e)],
            None => seq![],
        },
        None => seq![],
    };
    let value = match quote_value_error(quote.value, index) {
        Some(e) => seq![QuoteParsingError::ValueError(e)],
        None => seq![],
    };
    original + value
}

impl QuoteBuilder {
    /// Checks the original, then the quotation.
    pub fn verify_structure(&self, index: &BuilderIndex) -> (r: Vec<QuoteParsingError>)
        requires
            index.wf(),
        ensures
            r@ == quote_errors(*self, *index),
    {
        let mut errors: Vec<QuoteParsingError> = Vec::new();
        match &self.original {
            Some(original) => match original.verify_structure(index) {
                Some(e) => errors.push(QuoteParsingError::OriginalError(e)),
                None => {},
            },
            None => {},
        }
        match self.value.verify_structure(index) {
            Some(e) => errors.push(QuoteParsingError::ValueError(e)),
            None => {},
        }
        assert(errors@ =~= quote_errors(*self, *index));
        errors
    }
}

/// A note of work left to do: texts.
pub struct TodoBuilder {
    pub elements: Vec<TextBuilder>,
}

impl TodoBuilder {
    /// Checks every text; each error comes with the position of its text.
    pub fn verify_structure(&self, index: &BuilderIndex) -> (r: Vec<(usize, TextParsingError)>)
        requires
            index.wf(),
            texts_no_tag_references(self.elements@),
        ensures
            r@ == texts_check(self.elements@, *index, self.elements@.len()).1,
    {
        let (_, errors) = check_texts(&self.elements, index);
        errors
    }
}

/// The positions of the links with an invalid address among the first `n` pieces of a text.
pub open spec fn invalid_link_positions(contents: Seq<UnformattedBuilderElement>, n: nat) -> Seq<usize>
    decreases n,
{
    if n == 0 || n > contents.len() {
        seq![]
    } else {
        invalid_link_positions(contents, (n - 1) as nat) + if unformatted_element_ok(contents[n - 1]) {
            Seq::<usize>::empty()
        } else {
            seq![(n - 1) as usize]
        }
    }
}

/// A heading of a given level.
pub struct SubHeadingBuilder {
    pub level: HeadingLevel,
    pub contents: Vec<UnformattedBuilderElement>,
}

impl SubHeadingBuilder {
    /// The positions of the links of the heading whose address is invalid.
    pub fn verify_structure(&self) -> (r: Vec<usize>)
        ensures
            r@ == invalid_link_positions(self.contents@, self.contents@.len()),
    {
        let mut invalid: Vec<usize> = Vec::new();
        let mut i: usize = 0;
        while i < self.contents.len()
            invariant
                i <= self.contents@.len(),
                invalid@ == invalid_link_positions(self.contents@, i as nat),
            decreases self.contents@.len() - i,
        {
            if !self.contents[i].verify_structure() {
                invalid.push(i);
            }
            proof {
                assert(invalid@ =~= invalid_link_positions(self.contents@, (i + 1) as nat));
            }
            i = i + 1;
        }
        invalid
    }
}

/// The links with an invalid address of the first `n` headings of a block, each by the position
/// of its heading and its own.
pub open spec fn heading_errors(subheadings: Seq<SubHeadingBuilder>, n: nat) -> Seq<(usize, usize)>
    decreases n,
{
    if n == 0 || n > subheadings.len() {
        seq![]
    } else {
        let contents = subheadings[n - 1].contents@;
        heading_errors(subheadings, (n - 1) as nat) + invalid_link_positions(contents, contents.len()).map_values(
            |k: usize| ((n - 1) as usize, k),
        )
    }
}

/// A block of headings.
pub struct HeadingBuilder {
    pub subheadings: Vec<SubHeadingBuilder>,
}

impl HeadingBuilder {
    /// The links with an invalid address, by the positions of their heading and their own.
    pub fn verify_structure(&self) -> (r: Vec<(usize, usize)>)
        ensures
            r@ == heading_errors(self.subheadings@, self.subheadings@.len()),
    {
        let mut errors: Vec<(usize, usize)> = Vec::new();
        let mut i: usize = 0;
        while i < self.subheadings.len()
            invariant
                i <= self.subheadings@.len(),
                errors@ == heading_errors(self.subheadings@, i as nat),
            decreases self.subheadings@.len() - i,
        {
            let inner = self.subheadings[i].verify_structure();
            let ghost before = errors@;
            let mut j: usize = 0;
            while j < inner.len()
                invariant
                    j <= inner@.len(),
                    errors@ == before + inner@.take(j as int).map_values(|k: usize| (i, k)),
                decreases inner@.len() - j,
            {
                errors.push((i, inner[j]));
                proof {
                    assert(inner@.take(j + 1) =~= inner@.take(j as int).push(inner@[j as int]));
                    assert(errors@ =~= before + inner@.take(j + 1).map_values(|k: usize| (i, k)));
                }
                j = j + 1;
            }
            proof {
                assert(inner@.take(j as int) =~= inner@);
            }
            i = i + 1;
        }
        errors
    }
}

/// A block of text.
pub struct TextBlockBuilder {
    pub location: BlockLocation,
    pub text: TextBuilder,
}

impl TextBlockBuilder {
    /// Checks the text; whether it is accepted is returned with its errors.
    pub fn verify_structure(&self, index: &BuilderIndex) -> (r: (bool, Vec<TextParsingError>))
        requires
            index.wf(),
            text_no_tag_references(self.text),
        ensures
            r.0 == text_check(self.text, *index, None).0,
            r.1@ == text_check(self.text, *index, None).1,
    {
        self.text.verify_structure(index)
    }

    pub fn text(&self) -> (r: &TextBuilder)
        ensures
            *r == self.text,
    {
        &self.text
    }
}

/// The entries that the first `n` paragraphs of a list cite, in order.
pub open spec fn paragraphs_bib_refs(paragraphs: Seq<ParagraphBuilder>, index: BuilderIndex, n: nat) -> Seq<
    BibliographyBuilderRef,
>
    decreases n,
{
    if n == 0 || n > paragraphs.len() {
        seq![]
    } else {
        paragraphs_bib_refs(paragraphs, index, (n - 1) as nat) + paragraph_bib_refs(paragraphs[n - 1], index)
    }
}

/// Whether every key that a list of paragraphs cites names an entry of the bibliography.
pub open spec fn paragraphs_citations_known(paragraphs: Seq<ParagraphBuilder>, index: BuilderIndex) -> bool {
    forall|i: int| 0 <= i < paragraphs.len() ==> citations_known(#[trigger] paragraphs[i], index)
}

/// Appends the entries that paragraphs cite.
fn gather_paragraphs(paragraphs: &Vec<ParagraphBuilder>, index: &BuilderIndex, refs: &mut Vec<BibliographyBuilderRef>)
    requires
        index.wf(),
        paragraphs_citations_known(paragraphs@, *index),
    ensures
        final(refs)@ == old(refs)@ + paragraphs_bib_refs(paragraphs@, *index, paragraphs@.len()),
{
    let ghost start = refs@;
    let mut i: usize = 0;
    while i < paragraphs.len()
        invariant
            i <= paragraphs@.len(),
            index.wf(),
            paragraphs_citations_known(paragraphs@, *index),
            refs@ == start + paragraphs_bib_refs(paragraphs@, *index, i as nat),
        decreases paragraphs@.len() - i,
    {
        let mut more = paragraphs[i].bib_refs(index);
        refs.append(&mut more);
        proof {
            assert(refs@ =~= start + paragraphs_bib_refs(paragraphs@, *index, (i + 1) as nat));
        }
        i = i + 1;
    }
}

impl ListBuilder {
    /// The entries that the items cite, in order.
    pub fn bib_refs(&self, index: &BuilderIndex) -> (r: Vec<BibliographyBuilderRef>)
        requires
            index.wf(),
            paragraphs_citations_known(self.items@, *index),
        ensures
            r@ == paragraphs_bib_refs(self.items@, *index, self.items@.len()),
    {
        let mut refs: Vec<BibliographyBuilderRef> = Vec::new();
        gather_paragraphs(&self.items, index, &mut refs);
        assert(refs@ =~= paragraphs_bib_refs(self.items@, *index, self.items@.len()));
        refs
    }
}

/// The entries that the cells of the first `n` rows of a list cite, row by row.
pub open spec fn rows_bib_refs(rows: Seq<TableBuilderRow>, index: BuilderIndex, n: nat) -> Seq<BibliographyBuilderRef>
    decreases n,
{
    if n == 0 || n > rows.len() {
        seq![]
    } else {
        let cells = rows[n - 1].cells@;
        rows_bib_refs(rows, index, (n - 1) as nat) + paragraphs_bib_refs(cells, index, cells.len())
    }
}

/// Whether every key that the cells of a list of rows cite names an entry of the bibliography.
pub open spec fn rows_citations_known(rows: Seq<TableBuilderRow>, index: BuilderIndex) -> bool {
    forall|i: int| 0 <= i < rows.len() ==> paragraphs_citations_known(#[trigger] rows[i].cells@, index)
}

/// The entries that a table cites: those of its cells, row by row, then those of its caption.
pub open spec fn table_bib_refs(table: TableBuilder, index: BuilderIndex) -> Seq<BibliographyBuilderRef> {
    let rows = table_rows(table);
    rows_bib_refs(rows, index, rows.len()) + match table.caption {
        Some(caption) => paragraph_bib_refs(caption, index),
        None => seq![],
    }
}

/// Appends the entries that the cells of a part of a table cite, whose first row is row
/// `offset` of the whole table.
fn gather_rows(
    part: &Option<Vec<TableBuilderRow>>,
    offset: usize,
    Ghost(all): Ghost<Seq<TableBuilderRow>>,
    index: &BuilderIndex,
    refs: &mut Vec<BibliographyBuilderRef>,
) -> (r: usize)
    requires
        index.wf(),
        all.len() <= usize::MAX,
        offset + part_rows(*part).len() <= all.len(),
        all.subrange(offset as int, offset + part_rows(*part).len()) == part_rows(*part),
        rows_citations_known(all, *index),
        old(refs)@ == rows_bib_refs(all, *index, offset as nat),
    ensures
        r == offset + part_rows(*part).len(),
        final(refs)@ == rows_bib_refs(all, *index, r as nat),
{
    match part {
        None => offset,
        Some(rows) => {
            let mut k: usize = 0;
            while k < rows.len()
                invariant
                    k <= rows@.len(),
                    index.wf(),
                    all.len() <= usize::MAX,
                    offset + rows@.len() <= all.len(),
                    all.subrange(offset as int, offset + rows@.len()) == rows@,
                    rows_citations_known(all, *index),
                    refs@ == rows_bib_refs(all, *index, (offset + k) as nat),
                decreases rows@.len() - k,
            {
                assert(all[offset + k] == rows@[k as int]);
                gather_paragraphs(&rows[k].cells, index, refs);
                k = k + 1;
            }
            offset + k
        },
    }
}

impl TableBuilderRow {
    /// The entries that the cells cite, in order.
    pub fn bib_refs(&self, index: &BuilderIndex) -> (r: Vec<BibliographyBuilderRef>)
        requires
            index.wf(),
            paragraphs_citations_known(self.cells@, *index),
        ensures
            r@ == paragraphs_bib_refs(self.cells@, *index, self.cells@.len()),
    {
        let mut refs: Vec<BibliographyBuilderRef> = Vec::new();
        gather_paragraphs(&self.cells, index, &mut refs);
        assert(refs@ =~= paragraphs_bib_refs(self.cells@, *index, self.cells@.len()));
        refs
    }
}

impl TableBuilder {
    /// The entries that the table cites: its cells row by row, then its caption.
    pub fn bib_refs(&self, index: &BuilderIndex) -> (r: Vec<BibliographyBuilderRef>)
        requires
            index.wf(),
            table_rows(*self).len() <= usize::MAX,
            rows_citations_known(table_rows(*self), *index),
            self.caption matches Some(c) ==> citations_known(c, *index),
        ensures
            r@ == table_bib_refs(*self, *index),
    {
        let ghost all = table_rows(*self);
        let ghost head = part_rows(self.head);
        let ghost body = part_rows(self.body);
        let ghost foot = part_rows(self.foot);
        let mut refs: Vec<BibliographyBuilderRef> = Vec::new();
        assert(all.subrange(0, head.len() as int) =~= head);
        assert(refs@ =~= rows_bib_refs(all, *index, 0));
        let n = gather_rows(&self.head, 0, Ghost(all), index, &mut refs);
        assert(all.subrange(n as int, n + body.len()) =~= body);
        let n = gather_rows(&self.body, n, Ghost(all), index, &mut refs);
        assert(all.subrange(n as int, n + foot.len()) =~= foot);
        let n = gather_rows(&self.foot, n, Ghost(all), index, &mut refs);
        match &self.caption {
            Some(caption) => {
                let mut more = caption.bib_refs(index);
                refs.append(&mut more);
            },
            None => {
                assert(refs@ =~= refs@ + Seq::<BibliographyBuilderRef>::empty());
            },
        }
        refs
    }
}

/// The entries that a quote cites: that of the original, then that of the quotation.
pub open spec fn quote_bib_refs(quote: QuoteBuilder, index: BuilderIndex) -> Seq<BibliographyBuilderRef> {
    let original = match quote.original {
        Some(original) => seq![index.bib_refs.model()[original.bib_key@]],
        None => seq![],
    };
    original + seq![index.bib_refs.model()[quote.value.bib_key@]]
}

impl QuoteBuilder {
    /// The entries that the quote cites: that of the original, then that of the quotation.
    pub fn bib_refs(&self, index: &BuilderIndex) -> (r: Vec<BibliographyBuilderRef>)
        requires
            index.wf(),
            quote_errors(*self, *index).len() == 0,
        ensures
            r@ == quote_bib_refs(*self, *index),
    {
        let mut refs: Vec<BibliographyBuilderRef> = Vec::new();
        match &self.original {
            Some(original) => {
                assert(index.has_bib_key(original.bib_key@));
                match index.search_bib_ref(original.bib_key.as_str()) {
                    Some(r) => refs.push(r),
                    None => {},
                }
            },
            None => {},
        }
        assert(index.has_bib_key(self.value.bib_key@));
        match index.search_bib_ref(self.value.bib_key.as_str()) {
            Some(r) => refs.push(r),
            None => {},
        }
        assert(refs@ =~= quote_bib_refs(*self, *index));
        refs
    }
}

/// The entries that the first `n` texts of a list cite, in order.
pub open spec fn texts_bib_refs(texts: Seq<TextBuilder>, index: BuilderIndex, n: nat) -> Seq<BibliographyBuilderRef>
    decreases n,
{
    if n == 0 || n > texts.len() {
        seq![]
    } else {
        texts_bib_refs(texts, index, (n - 1) as nat) + text_bib_refs(texts[n - 1], index)
    }
}

/// Whether every key that a list of texts cites names an entry of the bibliography.
pub open spec fn texts_citations_known(texts: Seq<TextBuilder>, index: BuilderIndex) -> bool {
    forall|i: int| 0 <= i < texts.len() ==> text_citations_known(#[trigger] texts[i], index)
}

/// Appends the entries that texts cite.
pub(crate) fn gather_texts(texts: &Vec<TextBuilder>, index: &BuilderIndex, refs: &mut Vec<BibliographyBuilderRef>)
    requires
        index.wf(),
        texts_citations_known(texts@, *index),
    ensures
        final(refs)@ == old(refs)@ + texts_bib_refs(texts@, *index, texts@.len()),
{
    let ghost start = refs@;
    let mut i: usize = 0;
    while i < texts.len()
        invariant
            i <= texts@.len(),
            index.wf(),
            texts_citations_known(texts@, *index),
            refs@ == start + texts_bib_refs(texts@, *index, i as nat),
        decreases texts@.len() - i,
    {
        let mut more = texts[i].bib_refs(index);
        refs.append(&mut more);
        proof {
            assert(refs@ =~= start + texts_bib_refs(texts@, *index, (i + 1) as nat));
        }
        i = i + 1;
    }
}

impl TodoBuilder {
    /// The entries that the texts cite, in order.
    pub fn bib_refs(&self, index: &BuilderIndex) -> (r: Vec<BibliographyBuilderRef>)
        requires
            index.wf(),
            texts_citations_known(self.elements@, *index),
        ensures
            r@ == texts_bib_refs(self.elements@, *index, self.elements@.len()),
    {
        let mut refs: Vec<BibliographyBuilderRef> = Vec::new();
        gather_texts(&self.elements, index, &mut refs);
        assert(refs@ =~= texts_bib_refs(self.elements@, *index, self.elements@.len()));
        refs
    }
}

impl HeadingBuilder {
    /// A heading cites nothing.
    pub fn bib_refs(&self) -> (r: Vec<BibliographyBuilderRef>)
        ensures
            r@.len() == 0,
    {
        Vec::new()
    }
}

impl TextBlockBuilder {
    /// The entries that the text cites, in order.
    pub fn bib_refs(&self, index: &BuilderIndex) -> (r: Vec<BibliographyBuilderRef>)
        requires
            index.wf(),
            text_citations_known(self.text, *index),
        ensures
            r@ == text_bib_refs(self.text, *index),
    {
        self.text.bib_refs(index)
    }
}

} // verus!
