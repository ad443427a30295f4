//! Colors, fills and alignments, and how SVG writes them.

use vstd::prelude::*;
use vstd::string::StringExecFns;
use crate::text::{append_decimal, decimal};

verus! {

/// An opaque color.
#[derive(Copy, Clone, PartialEq, Eq, Structural)]
pub struct Color {
    pub r: u8,
    pub g: u8,
    pub b: u8,
}

pub fn rgb(r: u8, g: u8, b: u8) -> (color: Color)
    ensures
        color == (Color { r, g, b }),
{
    Color { r, g, b }
}

pub fn black() -> (color: Color)
    ensures
        color == (Color { r: 0, g: 0, b: 0 }),
{
    rgb(0, 0, 0)
}

pub fn white() -> (color: Color)
    ensures
        color == (Color { r: 255, g: 255, b: 255 }),
{
    rgb(255, 255, 255)
}

pub fn red() -> (color: Color)
    ensures
        color == (Color { r: 255, g: 0, b: 0 }),
{
    rgb(255, 0, 0)
}

pub fn green() -> (color: Color)
    ensures
        color == (Color { r: 0, g: 255, b: 0 }),
{
    rgb(0, 255, 0)
}

pub fn blue() -> (color: Color)
    ensures
        color == (Color { r: 0, g: 0, b: 255 }),
{
    rgb(0, 0, 255)
}

impl Color {
    /// The color as a style value: `rgb(255,0,0)`.
    pub open spec fn text(self) -> Seq<char> {
        "rgb("@ + decimal(self.r as nat) + ","@ + decimal(self.g as nat) + ","@ + decimal(self.b as nat) + ")"@
    }

    /// Writes the color as a style value.
    pub fn to_text(&self) -> (text: String)
        ensures
            text@ == self.text(),
    {
        let mut text = String::from_str("rgb(");
        append_decimal(&mut text, self.r as u64);
        text.append(",");
        append_decimal(&mut text, self.g as u64);
        text.append(",");
        append_decimal(&mut text, self.b as u64);
        text.append(")");
        text
    }
}

/// How a shape is filled.
#[derive(Copy, Clone, PartialEq, Eq, Structural)]
pub enum Fill {
    Color(Color),
    /// No fill at all.
    Unfilled,
}

impl Fill {
    /// The fill as a style property: `fill:rgb(255,0,0)` or `fill:none`.
    pub open spec fn text(self) -> Seq<char> {
        match self {
            Fill::Color(color) => "fill:"@ + color.text(),
            Fill::Unfilled => "fill:none"@,
        }
    }

    /// Writes the fill as a style property.
    pub fn to_text(&self) -> (text: String)
        ensures
            text@ == self.text(),
    {
        match self {
            Fill::Color(color) => {
                let mut text = String::from_str("fill:");
                let value = color.to_text();
                text.append(value.as_str());
                text
            },
            Fill::Unfilled => String::from_str("fill:none"),
        }
    }
}

impl From<Color> for Fill {
    fn from(color: Color) -> (fill: Fill) {
        Fill::Color(color)
    }
}

impl vstd::std_specs::convert::FromSpecImpl<Color> for Fill {
    open spec fn obeys_from_spec() -> bool {
        true
    }

    open spec fn from_spec(color: Color) -> Fill {
        Fill::Color(color)
    }
}

/// Where a text stands relative to its position.
#[derive(Copy, Clone, PartialEq, Eq, Structural)]
pub enum Align {
    Left,
    Right,
    Center,
}

impl Align {
    /// The alignment as a style property.
    pub open spec fn text(self) -> Seq<char> {
        match self {
            Align::Left => "text-align:left"@,
            Align::Right => "text-align:right"@,
            Align::Center => "text-align:center"@,
        }
    }

    /// Writes the alignment as a style property.
    pub fn to_text(&self) -> (text: String)
        ensures
            text@ == self.text(),
    {
        match self {
            Align::Left => String::from_str("text-align:left"),
            Align::Right => String::from_str("text-align:right"),
            Align::Center => String::from_str("text-align:center"),
        }
    }
}

/// The end of an SVG document.
#[derive(Copy, Clone, PartialEq, Eq, Structural)]
pub struct EndSvg;

impl EndSvg {
    /// The closing tag.
    pub open spec fn text(self) -> Seq<char> {
        "</svg>"@
    }

    /// Writes the closing tag.
    pub fn to_text(&self) -> (text: String)
        ensures
            text@ == self.text(),
    {
        String::from_str("</svg>")
    }
}

/// How deep the lines of a document are indented.
pub struct Indentation {
    pub n: u32,
}

pub fn indent(n: u32) -> (indentation: Indentation)
    ensures
        indentation.n == n,
{
    Indentation { n }
}

impl Indentation {
    /// One level deeper.
    pub fn push(&mut self)
        requires
            old(self).n < u32::MAX,
        ensures
            final(self).n == old(self).n + 1,
    {
        self.n = self.n + 1;
    }

    /// One level back.
    pub fn pop(&mut self)
        requires
            old(self).n > 0,
        ensures
            final(self).n == old(self).n - 1,
    {
        self.n = self.n - 1;
    }

    /// The indentation as text: four spaces for each level.
    pub open spec fn text(self) -> Seq<char> {
        Seq::new(4 * self.n as nat, |i: int| ' ')
    }

    /// Writes the indentation.
    pub fn to_text(&self) -> (text: String)
        ensures
            text@ == self.text(),
    {
        let mut text = String::new();
        let mut level: u32 = 0;
        proof {
            reveal_strlit("    ");
        }
        while level < self.n
            invariant
                level <= self.n,
                text@ =~= Seq::new(4 * level as nat, |i: int| ' '),
                "    "@.len() == 4,
                forall|i: int| 0 <= i < 4 ==> "    "@[i] == ' ',
            decreases self.n - level,
        {
            text.append("    ");
            level = level + 1;
        }
        text
    }
}

} // verus!
