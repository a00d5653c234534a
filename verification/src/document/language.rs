use vstd::prelude::*;

use crate::rendered::{Denoted, DenotedStyle};
use crate::{greek_letter, map_ident};

use super::text::{MathBlock, MathElement};

verus! {

/// Where a notation is written relative to its inputs.
#[derive(Clone, Copy, PartialEq, Eq, Debug, Structural)]
pub enum DisplayStyle {
    Prefix,
    Infix,
    Suffix,
    Standard,
}

/// How a symbol or definition is written: a style and the name of its sign.
#[derive(Clone, Debug)]
pub struct Display {
    pub style: DisplayStyle,
    pub id: String,
}

impl Display {
    pub fn new(style: DisplayStyle, id: String) -> (r: Display)
        ensures
            r.style == style,
            r.id == id,
    {
        Display { style, id }
    }

    /// An example of the notation applied to two inputs with the given names: the first input,
    /// the sign, and the second input, Greek letter names written as letters. Only infix
    /// notations have examples.
    pub fn example(&self, inputs: &Vec<&str>) -> (r: MathBlock)
        requires
            self.style == DisplayStyle::Infix,
            inputs@.len() == 2,
        ensures
            r.elements@.len() == 3,
            r.elements@[0] matches MathElement::Variable(first) && first@ == greek_letter(
                inputs@[0]@,
            ),
            r.elements@[1] matches MathElement::Operator(op) && op@ == greek_letter(self.id@),
            r.elements@[2] matches MathElement::Variable(second) && second@ == greek_letter(
                inputs@[1]@,
            ),
    {
        let first = map_ident(inputs[0]).to_owned();
        let second = map_ident(inputs[1]).to_owned();
        let op = map_ident(self.id.as_str()).to_owned();
        let mut elements: Vec<MathElement> = Vec::new();
        elements.push(MathElement::Variable(first));
        elements.push(MathElement::Operator(op));
        elements.push(MathElement::Variable(second));
        MathBlock::new(elements)
    }

    /// The notation as it is presented: its style and its sign, a Greek letter name written as
    /// the letter. Only prefix and infix notations are presented.
    pub fn render(&self) -> (r: Option<Denoted>)
        requires
            self.style == DisplayStyle::Prefix || self.style == DisplayStyle::Infix,
        ensures
            r matches Some(d) && d.example@ == greek_letter(self.id@) && (if self.style
                == DisplayStyle::Prefix {
                d.style == DenotedStyle::Prefix
            } else {
                d.style == DenotedStyle::Infix
            }),
    {
        let example = map_ident(self.id.as_str()).to_owned();
        match self.style {
            DisplayStyle::Prefix => Some(Denoted::new(DenotedStyle::Prefix, example)),
            _ => Some(Denoted::new(DenotedStyle::Infix, example)),
        }
    }
}

} // verus!
