//! A checker for formal systems: types, symbols, definitions, axioms, theorems and proofs, with
//! the data structures used to present a checked document.
use vstd::prelude::*;
use vstd::string::StrSliceExecFns;

pub mod builders;
pub mod deduction;
pub mod document;
pub mod rendered;

verus! {

/// Whether two strings are equal.
pub(crate) fn str_equal(a: &str, b: &str) -> (r: bool)
    ensures
        r == (a@ == b@),
{
    broadcast use vstd::string::to_string_from_display_ensures_for_str;

    let x = a.to_string();
    let y = b.to_string();
    x == y
}

/// The character that the name of a lower-case Greek letter stands for; any other name stands
/// for itself.
pub open spec fn greek_letter(name: Seq<char>) -> Seq<char> {
    if name == "alpha"@ {
        "\u{03B1}"@
    } else if name == "beta"@ {
        "\u{03B2}"@
    } else if name == "gamma"@ {
        "\u{03B3}"@
    } else if name == "delta"@ {
        "\u{03B4}"@
    } else if name == "epsilon"@ {
        "\u{03B5}"@
    } else if name == "zeta"@ {
        "\u{03B6}"@
    } else if name == "eta"@ {
        "\u{03B7}"@
    } else if name == "theta"@ {
        "\u{03B8}"@
    } else if name == "iota"@ {
        "\u{03B9}"@
    } else if name == "kappa"@ {
        "\u{03BA}"@
    } else if name == "lambda"@ {
        "\u{03BB}"@
    } else if name == "mu"@ {
        "\u{03BC}"@
    } else if name == "nu"@ {
        "\u{03BD}"@
    } else if name == "xi"@ {
        "\u{03BE}"@
    } else if name == "omicron"@ {
        "\u{03BF}"@
    } else if name == "pi"@ {
        "\u{03C0}"@
    } else if name == "rho"@ {
        "\u{03C1}"@
    } else if name == "sigma"@ {
        "\u{03C3}"@
    } else if name == "tau"@ {
        "\u{03C4}"@
    } else if name == "upsilon"@ {
        "\u{03C5}"@
    } else if name == "phi"@ {
        "\u{03C6}"@
    } else if name == "chi"@ {
        "\u{03C7}"@
    } else if name == "psi"@ {
        "\u{03C8}"@
    } else if name == "omega"@ {
        "\u{03C9}"@
    } else {
        name
    }
}

/// Replaces the name of a lower-case Greek letter by the letter (see `greek_letter`).
pub fn map_ident(ident: &str) -> (r: &str)
    ensures
        r@ == greek_letter(ident@),
{
    if str_equal(ident, "alpha") {
        "\u{03B1}"
    } else if str_equal(ident, "beta") {
        "\u{03B2}"
    } else if str_equal(ident, "gamma") {
        "\u{03B3}"
    } else if str_equal(ident, "delta") {
        "\u{03B4}"
    } else if str_equal(ident, "epsilon") {
        "\u{03B5}"
    } else if str_equal(ident, "zeta") {
        "\u{03B6}"
    } else if str_equal(ident, "eta") {
        "\u{03B7}"
    } else if str_equal(ident, "theta") {
        "\u{03B8}"
    } else if str_equal(ident, "iota") {
        "\u{03B9}"
    } else if str_equal(ident, "kappa") {
        "\u{03BA}"
    } else if str_equal(ident, "lambda") {
        "\u{03BB}"
    } else if str_equal(ident, "mu") {
        "\u{03BC}"
    } else if str_equal(ident, "nu") {
        "\u{03BD}"
    } else if str_equal(ident, "xi") {
        "\u{03BE}"
    } else if str_equal(ident, "omicron") {
        "\u{03BF}"
    } else if str_equal(ident, "pi") {
        "\u{03C0}"
    } else if str_equal(ident, "rho") {
        "\u{03C1}"
    } else if str_equal(ident, "sigma") {
        "\u{03C3}"
    } else if str_equal(ident, "tau") {
        "\u{03C4}"
    } else if str_equal(ident, "upsilon") {
        "\u{03C5}"
    } else if str_equal(ident, "phi") {
        "\u{03C6}"
    } else if str_equal(ident, "chi") {
        "\u{03C7}"
    } else if str_equal(ident, "psi") {
        "\u{03C8}"
    } else if str_equal(ident, "omega") {
        "\u{03C9}"
    } else {
        ident
    }
}

/// The part of a line of a span that comes before the marked text, the marked text, and the
/// part after it. A span on one line marks the columns from its start to its end; otherwise the
/// first line is marked from the start column on, the last line between the start and end
/// columns, and every line between is marked whole. Columns count characters from one.
pub open spec fn preview_parts(
    line: Seq<char>,
    i: int,
    start_line: usize,
    start_column: usize,
    end_line: usize,
    end_column: usize,
) -> (Seq<char>, Seq<char>, Seq<char>) {
    if start_line == end_line {
        (line.take(start_column - 1), line.subrange(start_column - 1, end_column - 1), line.skip(end_column - 1))
    } else if i == 0 {
        (line.take(start_column - 1), line.skip(start_column - 1), seq![])
    } else if i == end_line - start_line {
        (seq![], line.subrange(start_column - 1, end_column - 1), line.skip(end_column - 1))
    } else {
        (seq![], line, seq![])
    }
}

/// Whether the columns that mark a line of a span lie within it.
pub open spec fn preview_columns_fit(
    len: nat,
    i: int,
    start_line: usize,
    start_column: usize,
    end_line: usize,
    end_column: usize,
) -> bool {
    if start_line == end_line {
        1 <= start_column <= end_column <= len + 1
    } else if i == 0 {
        1 <= start_column <= len + 1
    } else if i == end_line - start_line {
        1 <= start_column <= end_column <= len + 1
    } else {
        true
    }
}

/// A line of a span with its marked text underlined in red for a terminal.
pub open spec fn preview_line(
    line: Seq<char>,
    i: int,
    start_line: usize,
    start_column: usize,
    end_line: usize,
    end_column: usize,
) -> Seq<char> {
    let parts = preview_parts(line, i, start_line, start_column, end_line, end_column);
    parts.0 + "\u{1B}[91;4m"@ + parts.1 + "\u{1B}[0m"@ + parts.2
}

/// Where something stands in a source file: its path, the line and column where it starts and
/// ends, and its lines as they are shown in a message.
pub struct FileLocation {
    pub path: String,
    pub start_line: usize,
    pub start_column: usize,
    pub end_line: usize,
    pub end_column: usize,
    pub preview: Vec<String>,
}

impl FileLocation {
    /// The location of a span that starts and ends at the given lines and columns, whose lines
    /// are `lines`; each line is shown with the span's text marked.
    pub fn new(
        path: String,
        start_line: usize,
        start_column: usize,
        end_line: usize,
        end_column: usize,
        lines: &Vec<String>,
    ) -> (r: FileLocation)
        requires
            forall|i: int|
                0 <= i < lines@.len() ==> preview_columns_fit(
                    (#[trigger] lines@[i])@.len(),
                    i,
                    start_line,
                    start_column,
                    end_line,
                    end_column,
                ),
        ensures
            r.path@ == path@,
            r.start_line == start_line,
            r.start_column == start_column,
            r.end_line == end_line,
            r.end_column == end_column,
            r.preview@.len() == lines@.len(),
            forall|i: int|
                0 <= i < lines@.len() ==> (#[trigger] r.preview@[i])@ == preview_line(
                    lines@[i]@,
                    i,
                    start_line,
                    start_column,
                    end_line,
                    end_column,
                ),
    {
        let mut preview: Vec<String> = Vec::new();
        let mut i: usize = 0;
        while i < lines.len()
            invariant
                i <= lines@.len(),
                preview@.len() == i,
                forall|k: int|
                    0 <= k < lines@.len() ==> preview_columns_fit(
                        (#[trigger] lines@[k])@.len(),
                        k,
                        start_line,
                        start_column,
                        end_line,
                        end_column,
                    ),
                forall|k: int|
                    0 <= k < i ==> (#[trigger] preview@[k])@ == preview_line(
                        lines@[k]@,
                        k,
                        start_line,
                        start_column,
                        end_line,
                        end_column,
                    ),
            decreases lines@.len() - i,
        {
            let line = lines[i].as_str();
            let len = line.unicode_len();
            proof {
                assert(preview_columns_fit(lines@[i as int]@.len(), i as int, start_line, start_column, end_line, end_column));
            }
            let (before, inside, after) = if start_line == end_line {
                (
                    line.substring_char(0, start_column - 1),
                    line.substring_char(start_column - 1, end_column - 1),
                    line.substring_char(end_column - 1, len),
                )
            } else if i == 0 {
                (line.substring_char(0, start_column - 1), line.substring_char(start_column - 1, len), "")
            } else if end_line >= start_line && i == end_line - start_line {
                (
                    "",
                    line.substring_char(start_column - 1, end_column - 1),
                    line.substring_char(end_column - 1, len),
                )
            } else {
                ("", line, "")
            };
            let mut shown = String::new();
            shown.append(before);
            shown.append("\u{1B}[91;4m");
            shown.append(inside);
            shown.append("\u{1B}[0m");
            shown.append(after);
            proof {
                reveal_strlit("");
                let parts = preview_parts(lines@[i as int]@, i as int, start_line, start_column, end_line, end_column);
                assert(before@ =~= parts.0);
                assert(inside@ =~= parts.1);
                assert(after@ =~= parts.2);
            }
            preview.push(shown);
            i = i + 1;
        }
        FileLocation { path, start_line, start_column, end_line, end_column, preview }
    }
}

} // verus!
