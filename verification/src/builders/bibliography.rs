//! The bibliography of a library, and the local bibliography of a page: the entries that the page
//! cites, numbered in the order in which it first cites them.
use vstd::prelude::*;

use super::directory::BibliographyBuilderRef;
use super::errors::{BibliographyParsingError, RawCitationParsingError};
use super::index::BuilderIndex;
use super::text::{raw_citation_errors, RawCitationBuilder};

verus! {

/// An entry of the bibliography: its key, the citation it stands for, and its position in the
/// bibliography file.
pub struct BibliographyBuilderEntry {
    pub id: String,
    pub raw_citation: RawCitationBuilder,
    pub index: usize,
}

impl BibliographyBuilderEntry {
    /// The errors of the citation of the entry.
    pub fn verify_structure(&self) -> (r: Vec<BibliographyParsingError>)
        ensures
            r@ == raw_citation_errors(self.raw_citation).map_values(
                |e: RawCitationParsingError| BibliographyParsingError::RawCitationError(e),
            ),
    {
        let (_, inner) = self.raw_citation.verify_structure();
        let mut errors: Vec<BibliographyParsingError> = Vec::new();
        let mut j: usize = 0;
        while j < inner.len()
            invariant
                j <= inner@.len(),
                errors@ == inner@.take(j as int).map_values(
                    |e: RawCitationParsingError| BibliographyParsingError::RawCitationError(e),
                ),
            decreases inner@.len() - j,
        {
            errors.push(BibliographyParsingError::RawCitationError(inner[j]));
            proof {
                assert(inner@.take(j + 1) =~= inner@.take(j as int).push(inner@[j as int]));
                assert(errors@ =~= inner@.take(j + 1).map_values(
                    |e: RawCitationParsingError| BibliographyParsingError::RawCitationError(e),
                ));
            }
            j = j + 1;
        }
        proof {
            assert(inner@.take(j as int) =~= inner@);
        }
        errors
    }

    pub fn id(&self) -> (r: &str)
        ensures
            r@ == self.id@,
    {
        self.id.as_str()
    }
}

/// The entries of the bibliography, in the order of the file.
pub struct BibliographyBuilder {
    pub entries: Vec<BibliographyBuilderEntry>,
}

/// The keys of an index, and the errors, after the first `n` entries of a bibliography were
/// added to an index whose keys were `keys`: a key goes to the first entry that has it, and each
/// later entry with the key is an error that names the entry holding it.
pub open spec fn bib_index_run(
    entries: Seq<BibliographyBuilderEntry>,
    keys: Map<Seq<char>, BibliographyBuilderRef>,
    n: nat,
) -> (Map<Seq<char>, BibliographyBuilderRef>, Seq<(usize, BibliographyParsingError)>)
    decreases n,
{
    if n == 0 || n > entries.len() {
        (keys, seq![])
    } else {
        let before = bib_index_run(entries, keys, (n - 1) as nat);
        let id = entries[n - 1].id@;
        if before.0.contains_key(id) {
            (before.0, before.1.push(((n - 1) as usize, BibliographyParsingError::KeyAlreadyTaken(before.0[id]))))
        } else {
            (before.0.insert(id, BibliographyBuilderRef((n - 1) as usize)), before.1)
        }
    }
}

/// The errors of the first `n` entries of a bibliography, each with the position of its entry.
pub open spec fn bib_entries_errors(entries: Seq<BibliographyBuilderEntry>, n: nat) -> Seq<
    (usize, BibliographyParsingError),
>
    decreases n,
{
    if n == 0 || n > entries.len() {
        seq![]
    } else {
        bib_entries_errors(entries, (n - 1) as nat) + raw_citation_errors(entries[n - 1].raw_citation).map_values(
            |e: RawCitationParsingError| ((n - 1) as usize, BibliographyParsingError::RawCitationError(e)),
        )
    }
}

impl BibliographyBuilder {
    /// Adds the key of each entry to the index, in order; an entry is named by its position.
    pub fn build_index(&self, index: &mut BuilderIndex) -> (r: Vec<(usize, BibliographyParsingError)>)
        requires
            old(index).wf(),
        ensures
            final(index).wf(),
            (final(index).bib_refs.model(), r@) == bib_index_run(
                self.entries@,
                old(index).bib_refs.model(),
                self.entries@.len(),
            ),
            final(index).systems == old(index).systems,
            final(index).children == old(index).children,
            final(index).proofs == old(index).proofs,
            final(index).operators == old(index).operators,
    {
        let mut errors: Vec<(usize, BibliographyParsingError)> = Vec::new();
        let mut i: usize = 0;
        while i < self.entries.len()
            invariant
                i <= self.entries@.len(),
                index.wf(),
                (index.bib_refs.model(), errors@) == bib_index_run(self.entries@, old(index).bib_refs.model(), i as nat),
                index.systems == old(index).systems,
                index.children == old(index).children,
                index.proofs == old(index).proofs,
                index.operators == old(index).operators,
            decreases self.entries@.len() - i,
        {
            match index.add_bib_ref(self.entries[i].id.as_str(), BibliographyBuilderRef(i)) {
                Some(old_ref) => errors.push((i, BibliographyParsingError::KeyAlreadyTaken(old_ref))),
                None => {},
            }
            i = i + 1;
        }
        errors
    }

    /// The errors of the citations of the entries, each with the position of its entry.
    pub fn verify_structure(&self) -> (r: Vec<(usize, BibliographyParsingError)>)
        ensures
            r@ == bib_entries_errors(self.entries@, self.entries@.len()),
    {
        let mut errors: Vec<(usize, BibliographyParsingError)> = Vec::new();
        let mut i: usize = 0;
        while i < self.entries.len()
            invariant
                i <= self.entries@.len(),
                errors@ == bib_entries_errors(self.entries@, i as nat),
            decreases self.entries@.len() - i,
        {
            let inner = self.entries[i].verify_structure();
            let ghost before = errors@;
            let ghost tagged = raw_citation_errors(self.entries@[i as int].raw_citation).map_values(
                |e: RawCitationParsingError| (i, BibliographyParsingError::RawCitationError(e)),
            );
            let mut j: usize = 0;
            while j < inner.len()
                invariant
                    j <= inner@.len(),
                    inner@ == raw_citation_errors(self.entries@[i as int].raw_citation).map_values(
                        |e: RawCitationParsingError| BibliographyParsingError::RawCitationError(e),
                    ),
                    tagged == raw_citation_errors(self.entries@[i as int].raw_citation).map_values(
                        |e: RawCitationParsingError| (i, BibliographyParsingError::RawCitationError(e)),
                    ),
                    errors@ == before + tagged.take(j as int),
                decreases inner@.len() - j,
            {
                errors.push((i, inner[j]));
                proof {
                    assert(tagged.take(j + 1) =~= tagged.take(j as int).push(tagged[j as int]));
                }
                j = j + 1;
            }
            proof {
                assert(tagged.take(j as int) =~= tagged);
            }
            i = i + 1;
        }
        errors
    }
}

/// The entries of a list of citations, each once, in the order in which they are first cited.
pub open spec fn first_occurrences(citations: Seq<BibliographyBuilderRef>) -> Seq<BibliographyBuilderRef>
    decreases citations.len(),
{
    if citations.len() == 0 {
        seq![]
    } else {
        let before = first_occurrences(citations.drop_last());
        if before.contains(citations.last()) {
            before
        } else {
            before.push(citations.last())
        }
    }
}

/// The entries that a page cites, numbered in the order in which the page first cites them.
pub struct LocalBibliographyBuilder {
    pub entries: Vec<BibliographyBuilderRef>,
}

/// The position of an entry in a list, if it occurs.
fn position_of(entries: &Vec<BibliographyBuilderRef>, c: BibliographyBuilderRef) -> (r: Option<usize>)
    ensures
        r matches Some(j) ==> j < entries@.len() && entries@[j as int] == c,
        r is None ==> !entries@.contains(c),
{
    let mut j: usize = 0;
    while j < entries.len()
        invariant
            j <= entries@.len(),
            forall|k: int| 0 <= k < j ==> entries@[k] != c,
        decreases entries@.len() - j,
    {
        if entries[j].0 == c.0 {
            return Some(j);
        }
        j = j + 1;
    }
    None
}

impl LocalBibliographyBuilder {
    /// Numbers the entries of a page's citations, in order; gives for each citation the number of
    /// its entry.
    pub fn new(citations: &Vec<BibliographyBuilderRef>) -> (r: (LocalBibliographyBuilder, Vec<usize>))
        ensures
            r.0.entries@ == first_occurrences(citations@),
            r.1@.len() == citations@.len(),
            forall|i: int|
                0 <= i < citations@.len() ==> #[trigger] r.1@[i] < r.0.entries@.len() && r.0.entries@[r.1@[i] as int]
                    == citations@[i],
    {
        let mut entries: Vec<BibliographyBuilderRef> = Vec::new();
        let mut numbers: Vec<usize> = Vec::new();
        let mut i: usize = 0;
        while i < citations.len()
            invariant
                i <= citations@.len(),
                entries@ == first_occurrences(citations@.take(i as int)),
                numbers@.len() == i,
                forall|k: int|
                    0 <= k < i ==> #[trigger] numbers@[k] < entries@.len() && entries@[numbers@[k] as int]
                        == citations@[k],
            decreases citations@.len() - i,
        {
            let c = citations[i];
            proof {
                assert(citations@.take(i + 1).drop_last() =~= citations@.take(i as int));
            }
            match position_of(&entries, c) {
                Some(j) => {
                    assert(entries@.contains(c));
                    numbers.push(j);
                },
                None => {
                    numbers.push(entries.len());
                    entries.push(c);
                },
            }
            i = i + 1;
        }
        proof {
            assert(citations@.take(i as int) =~= citations@);
        }
        (LocalBibliographyBuilder { entries }, numbers)
    }
}

proof fn lemma_first_occurrences(citations: Seq<BibliographyBuilderRef>)
    ensures
        first_occurrences(citations).no_duplicates(),
        forall|x: BibliographyBuilderRef| first_occurrences(citations).contains(x) <==> citations.contains(x),
    decreases citations.len(),
{
    if citations.len() > 0 {
        let rest = citations.drop_last();
        lemma_first_occurrences(rest);
        let before = first_occurrences(rest);
        let last = citations.last();
        assert(citations == rest.push(last)) by {
            assert(citations =~= rest.push(last));
        }
        assert forall|x: BibliographyBuilderRef| first_occurrences(citations).contains(x) <==> citations.contains(x) by {
            if citations.contains(x) {
                let k = choose|k: int| 0 <= k < citations.len() && citations[k] == x;
                if k < rest.len() {
                    assert(rest[k] == x);
                    assert(rest.contains(x));
                    assert(before.contains(x));
                    if !before.contains(last) {
                        let m = choose|m: int| 0 <= m < before.len() && before[m] == x;
                        assert(before.push(last)[m] == x);
                    }
                } else {
                    assert(x == last);
                    if !before.contains(last) {
                        assert(before.push(last)[before.len() as int] == x);
                    }
                }
            }
            if first_occurrences(citations).contains(x) {
                let m = choose|m: int| 0 <= m < first_occurrences(citations).len() && first_occurrences(citations)[m] == x;
                if m < before.len() {
                    assert(before[m] == x);
                    assert(before.contains(x));
                    assert(rest.contains(x));
                    let k = choose|k: int| 0 <= k < rest.len() && rest[k] == x;
                    assert(citations[k] == x);
                } else {
                    assert(x == last);
                    assert(citations[citations.len() - 1] == x);
                }
            }
        }
        if !before.contains(last) {
            assert forall|a: int, b: int| 0 <= a < b < before.push(last).len() implies before.push(last)[a] != before.push(last)[b] by {
                if b == before.len() {
                    assert(before[a] == before.push(last)[a]);
                }
            }
        }
    }
}

/// The local bibliography of a page lists every entry that the page cites, and each only once.
pub proof fn law_local_bibliography_lists_each_cited_entry_once(citations: Seq<BibliographyBuilderRef>)
    ensures
        first_occurrences(citations).no_duplicates(),
        forall|x: BibliographyBuilderRef| first_occurrences(citations).contains(x) <==> citations.contains(x),
{
    lemma_first_occurrences(citations);
}

proof fn lemma_bib_key_kept(
    entries: Seq<BibliographyBuilderEntry>,
    keys: Map<Seq<char>, BibliographyBuilderRef>,
    i: int,
    n: nat,
)
    requires
        0 <= i < n <= entries.len(),
        i < usize::MAX,
        !keys.contains_key(entries[i].id@),
        forall|j: int| 0 <= j < i ==> entries[j].id@ != entries[i].id@,
    ensures
        bib_index_run(entries, keys, n).0.contains_key(entries[i].id@),
        bib_index_run(entries, keys, n).0[entries[i].id@] == BibliographyBuilderRef(i as usize),
    decreases n,
{
    if n > i + 1 {
        lemma_bib_key_kept(entries, keys, i, (n - 1) as nat);
    } else {
        lemma_bib_key_absent(entries, keys, i, i as nat);
    }
}

proof fn lemma_bib_key_absent(
    entries: Seq<BibliographyBuilderEntry>,
    keys: Map<Seq<char>, BibliographyBuilderRef>,
    i: int,
    n: nat,
)
    requires
        0 <= i < entries.len(),
        n <= i,
        !keys.contains_key(entries[i].id@),
        forall|j: int| 0 <= j < i ==> entries[j].id@ != entries[i].id@,
    ensures
        !bib_index_run(entries, keys, n).0.contains_key(entries[i].id@),
    decreases n,
{
    if n > 0 {
        lemma_bib_key_absent(entries, keys, i, (n - 1) as nat);
    }
}

/// A key of the bibliography names the first entry that has it: once the entries are added to an
/// index that did not hold the key, the key names that entry.
pub proof fn law_bibliography_key_names_first_entry(
    entries: Seq<BibliographyBuilderEntry>,
    keys: Map<Seq<char>, BibliographyBuilderRef>,
    i: int,
)
    requires
        0 <= i < entries.len(),
        i < usize::MAX,
        !keys.contains_key(entries[i].id@),
        forall|j: int| 0 <= j < i ==> entries[j].id@ != entries[i].id@,
    ensures
        bib_index_run(entries, keys, entries.len()).0[entries[i].id@] == BibliographyBuilderRef(i as usize),
{
    lemma_bib_key_kept(entries, keys, i, entries.len());
}

} // verus!
