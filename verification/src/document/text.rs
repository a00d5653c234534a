use vstd::prelude::*;

use crate::rendered::{DisplayMathRendered, SublistItemRendered};

verus! {

/// A piece of plain text: punctuation that needs escaping or typographic quotes, or a word.
#[derive(Clone, Debug)]
pub enum BareElement {
    OpenBracket,
    CloseBracket,
    Whitespace,
    Ampersand,
    Apostrophe,
    LeftDoubleQuote,
    RightDoubleQuote,
    LeftSingleQuote,
    RightSingleQuote,
    Ellipsis,
    Word(String),
}

/// The HTML text of a plain text element.
pub open spec fn bare_element_text(element: BareElement) -> Seq<char> {
    match element {
        BareElement::OpenBracket => "["@,
        BareElement::CloseBracket => "]"@,
        BareElement::Whitespace => " "@,
        BareElement::Ampersand => "&amp;"@,
        BareElement::Apostrophe => "&apos;"@,
        BareElement::LeftDoubleQuote => "\u{201C}"@,
        BareElement::RightDoubleQuote => "\u{201D}"@,
        BareElement::LeftSingleQuote => "\u{2018}"@,
        BareElement::RightSingleQuote => "\u{2019}"@,
        BareElement::Ellipsis => "\u{2026}"@,
        BareElement::Word(w) => w@,
    }
}

impl BareElement {
    pub fn render(&self) -> (r: &str)
        ensures
            r@ == bare_element_text(*self),
    {
        match self {
            BareElement::OpenBracket => "[",
            BareElement::CloseBracket => "]",
            BareElement::Whitespace => " ",
            BareElement::Ampersand => "&amp;",
            BareElement::Apostrophe => "&apos;",
            BareElement::LeftDoubleQuote => "\u{201C}",
            BareElement::RightDoubleQuote => "\u{201D}",
            BareElement::LeftSingleQuote => "\u{2018}",
            BareElement::RightSingleQuote => "\u{2019}",
            BareElement::Ellipsis => "\u{2026}",
            BareElement::Word(w) => w.as_str(),
        }
    }
}

/// The HTML text of a sequence of plain text elements: their texts one after the other.
pub open spec fn bare_text(elements: Seq<BareElement>) -> Seq<char>
    decreases elements.len(),
{
    if elements.len() == 0 {
        Seq::empty()
    } else {
        bare_text(elements.drop_last()) + bare_element_text(elements.last())
    }
}

/// Plain text.
#[derive(Clone, Debug)]
pub struct BareText {
    pub elements: Vec<BareElement>,
}

impl BareText {
    pub fn new(elements: Vec<BareElement>) -> (r: BareText)
        ensures
            r.elements == elements,
    {
        BareText { elements }
    }

    pub fn render(&self) -> (r: String)
        ensures
            r@ == bare_text(self.elements@),
    {
        let mut out = String::new();
        let mut i: usize = 0;
        while i < self.elements.len()
            invariant
                i <= self.elements@.len(),
                out@ == bare_text(self.elements@.take(i as int)),
            decreases self.elements@.len() - i,
        {
            out.append(self.elements[i].render());
            proof {
                assert(self.elements@.take(i + 1).drop_last() == self.elements@.take(i as int));
            }
            i = i + 1;
        }
        proof {
            assert(self.elements@.take(i as int) == self.elements@);
        }
        out
    }
}

/// A piece of a formula as it is displayed.
pub enum MathElement {
    Fenced(MathBlock),
    SquareRoot(MathBlock),
    Power(MathBlock, MathBlock),
    Operator(String),
    Separator,
    Symbol(String),
    Variable(String),
    Number(String),
}

/// A displayed formula: a row of pieces.
pub struct MathBlock {
    pub elements: Vec<MathElement>,
}

/// The MathML text of a piece of a formula.
pub open spec fn math_element_text(element: MathElement) -> Seq<char>
    decreases element, 0nat,
{
    match element {
        MathElement::Fenced(math) => "<mo class=\"paren\">(</mo>"@ + math_block_text(math)
            + "<mo class=\"paren\">)</mo>"@,
        MathElement::SquareRoot(math) => "<msqrt>"@ + math_block_text(math) + "</msqrt>"@,
        MathElement::Power(base, exp) => "<msup><mrow>"@ + math_block_text(base)
            + "</mrow><mrow>"@ + math_block_text(exp) + "</mrow></msup>"@,
        MathElement::Operator(op) => "<mo>"@ + op@ + "</mo>"@,
        MathElement::Separator => "<mo class=\"separator\">,</mo>"@,
        MathElement::Symbol(s) => "<mi>"@ + s@ + "</mi>"@,
        MathElement::Variable(v) => "<mo class=\"var\">&apos;</mo><mi>"@ + v@ + "</mi>"@,
        MathElement::Number(n) => "<mn>"@ + n@ + "</mn>"@,
    }
}

/// The MathML text of a displayed formula: its pieces in a row.
pub open spec fn math_block_text(math: MathBlock) -> Seq<char>
    decreases math, 0nat,
{
    proof {
        vstd::std_specs::vec::axiom_vec_decreases_to_view(math.elements);
    }
    "<mrow>"@ + math_elements_text(math.elements@, math.elements@.len()) + "</mrow>"@
}

/// The MathML texts of the first `n` pieces, one after the other.
pub open spec fn math_elements_text(elements: Seq<MathElement>, n: nat) -> Seq<char>
    decreases elements, n,
{
    if n == 0 || n > elements.len() {
        Seq::empty()
    } else {
        math_elements_text(elements, (n - 1) as nat) + math_element_text(elements[n - 1])
    }
}

impl MathElement {
    pub fn render(&self) -> (r: String)
        ensures
            r@ == math_element_text(*self),
        decreases self,
    {
        let mut out = String::new();
        match self {
            MathElement::Fenced(math) => {
                out.append("<mo class=\"paren\">(</mo>");
                out.append(math.render().as_str());
                out.append("<mo class=\"paren\">)</mo>");
            },
            MathElement::SquareRoot(math) => {
                out.append("<msqrt>");
                out.append(math.render().as_str());
                out.append("</msqrt>");
            },
            MathElement::Power(base, exp) => {
                out.append("<msup><mrow>");
                out.append(base.render().as_str());
                out.append("</mrow><mrow>");
                out.append(exp.render().as_str());
                out.append("</mrow></msup>");
            },
            MathElement::Operator(op) => {
                out.append("<mo>");
                out.append(op.as_str());
                out.append("</mo>");
            },
            MathElement::Separator => {
                out.append("<mo class=\"separator\">,</mo>");
            },
            MathElement::Symbol(s) => {
                out.append("<mi>");
                out.append(s.as_str());
                out.append("</mi>");
            },
            MathElement::Variable(v) => {
                out.append("<mo class=\"var\">&apos;</mo><mi>");
                out.append(v.as_str());
                out.append("</mi>");
            },
            MathElement::Number(n) => {
                out.append("<mn>");
                out.append(n.as_str());
                out.append("</mn>");
            },
        }
        out
    }
}

impl MathBlock {
    pub fn new(elements: Vec<MathElement>) -> (r: MathBlock)
        ensures
            r.elements == elements,
    {
        MathBlock { elements }
    }

    pub fn render(&self) -> (r: String)
        ensures
            r@ == math_block_text(*self),
        decreases self,
    {
        let mut out = String::new();
        out.append("<mrow>");
        let ghost head = out@;
        let mut i: usize = 0;
        while i < self.elements.len()
            invariant
                i <= self.elements@.len(),
                out@ == head + math_elements_text(self.elements@, i as nat),
            decreases self.elements@.len() - i,
        {
            proof {
                assert(decreases_to!(*self => self.elements));
                vstd::std_specs::vec::axiom_vec_index_decreases(self.elements, i as int);
            }
            let piece = self.elements[i].render();
            out.append(piece.as_str());
            i = i + 1;
        }
        out.append("</mrow>");
        out
    }
}

/// A formula displayed on its own line, with the punctuation that follows it.
pub struct DisplayMathBlock {
    pub math: MathBlock,
    pub end: String,
}

impl DisplayMathBlock {
    pub fn new(math: MathBlock, end: String) -> (r: DisplayMathBlock)
        ensures
            r.math == math,
            r.end == end,
    {
        DisplayMathBlock { math, end }
    }

    pub fn render(&self) -> (r: DisplayMathRendered)
        ensures
            r.math@ == math_block_text(self.math),
            r.end@ == self.end@,
    {
        let math = self.math.render();
        let end = self.end.clone();
        DisplayMathRendered::new(math, end)
    }
}

/// An item of a substitution list: a variable and what replaces it.
pub struct SublistItem {
    pub var_id: String,
    pub replacement: MathBlock,
}

impl SublistItem {
    pub fn new(var_id: String, replacement: MathBlock) -> (r: SublistItem)
        ensures
            r.var_id == var_id,
            r.replacement == replacement,
    {
        SublistItem { var_id, replacement }
    }

    pub fn render(&self) -> (r: SublistItemRendered)
        ensures
            r.var_id@ == self.var_id@,
            r.replacement@ == math_block_text(self.replacement),
    {
        let var_id = self.var_id.clone();
        let replacement = self.replacement.render();
        SublistItemRendered::new(var_id, replacement)
    }
}

/// A substitution list.
pub struct Sublist {
    pub items: Vec<SublistItem>,
}

impl Sublist {
    pub fn new(items: Vec<SublistItem>) -> (r: Sublist)
        ensures
            r.items == items,
    {
        Sublist { items }
    }

    pub fn render(&self) -> (r: Vec<SublistItemRendered>)
        ensures
            r@.len() == self.items@.len(),
            forall|i: int|
                0 <= i < r@.len() ==> (#[trigger] r@[i]).var_id@ == self.items@[i].var_id@
                    && r@[i].replacement@ == math_block_text(self.items@[i].replacement),
    {
        let mut out: Vec<SublistItemRendered> = Vec::new();
        let mut i: usize = 0;
        while i < self.items.len()
            invariant
                i <= self.items@.len(),
                out@.len() == i,
                forall|k: int|
                    0 <= k < i ==> (#[trigger] out@[k]).var_id@ == self.items@[k].var_id@
                        && out@[k].replacement@ == math_block_text(self.items@[k].replacement),
            decreases self.items@.len() - i,
        {
            out.push(self.items[i].render());
            i = i + 1;
        }
        out
    }
}

/// The level of a heading.
#[derive(Clone, Copy, Debug)]
pub enum HeadingLevel {
    L1,
    L2,
    L3,
}

impl HeadingLevel {
    pub fn render(&self) -> (r: usize)
        ensures
            r == (match *self {
                HeadingLevel::L1 => 1usize,
                HeadingLevel::L2 => 2usize,
                HeadingLevel::L3 => 3usize,
            }),
    {
        match self {
            HeadingLevel::L1 => 1,
            HeadingLevel::L2 => 2,
            HeadingLevel::L3 => 3,
        }
    }
}

} // verus!
