//! The elements that the formatter knows, as a closed set of kinds.

use crate::text::{chars_eq_str, to_chars};
use vstd::prelude::*;

verus! {

/// An inline style that is rendered as a pair of markers round the text.
#[derive(Debug, Clone, Copy, PartialEq, Eq, Structural)]
pub enum InlineStyle {
    /// `strong` and `b`: `**`.
    Strong,
    /// `em` and `i`: `*`.
    Emphasis,
    /// `mark`: `==`.
    Mark,
    /// `del`: `~~`.
    Strike,
    /// `ins`: `__`.
    Insert,
}

/// What the formatter takes an element for, by its name.
#[derive(Debug, Clone, Copy, PartialEq, Eq, Structural)]
pub enum ElementKind {
    /// `h1` to `h6`, with the level.
    Heading(u8),
    Paragraph,
    Pre,
    Blockquote,
    Anchor,
    Image,
    Meta,
    Code,
    Table,
    TableRow,
    /// `td` and `th`.
    TableCell,
    UnorderedList,
    OrderedList,
    ListItem,
    Title,
    Script,
    Style,
    Inline(InlineStyle),
    /// `div`, `article` and `section`.
    Container,
    /// Any other element: it is passed through, its children are visited.
    Other,
}

/// The marker that opens and closes text of this style.
pub open spec fn style_marker(style: InlineStyle) -> Seq<char> {
    match style {
        InlineStyle::Strong => seq!['*', '*'],
        InlineStyle::Emphasis => seq!['*'],
        InlineStyle::Mark => seq!['=', '='],
        InlineStyle::Strike => seq!['~', '~'],
        InlineStyle::Insert => seq!['_', '_'],
    }
}

/// The kind of the element named `name`.
pub open spec fn element_kind(name: Seq<char>) -> ElementKind {
    if name == "h1"@ {
        ElementKind::Heading(1)
    } else if name == "h2"@ {
        ElementKind::Heading(2)
    } else if name == "h3"@ {
        ElementKind::Heading(3)
    } else if name == "h4"@ {
        ElementKind::Heading(4)
    } else if name == "h5"@ {
        ElementKind::Heading(5)
    } else if name == "h6"@ {
        ElementKind::Heading(6)
    } else if name == "p"@ {
        ElementKind::Paragraph
    } else if name == "pre"@ {
        ElementKind::Pre
    } else if name == "blockquote"@ {
        ElementKind::Blockquote
    } else if name == "a"@ {
        ElementKind::Anchor
    } else if name == "img"@ {
        ElementKind::Image
    } else if name == "meta"@ {
        ElementKind::Meta
    } else if name == "code"@ {
        ElementKind::Code
    } else if name == "table"@ {
        ElementKind::Table
    } else if name == "tr"@ {
        ElementKind::TableRow
    } else if name == "th"@ || name == "td"@ {
        ElementKind::TableCell
    } else if name == "ul"@ {
        ElementKind::UnorderedList
    } else if name == "ol"@ {
        ElementKind::OrderedList
    } else if name == "li"@ {
        ElementKind::ListItem
    } else if name == "title"@ {
        ElementKind::Title
    } else if name == "script"@ {
        ElementKind::Script
    } else if name == "style"@ {
        ElementKind::Style
    } else if name == "strong"@ || name == "b"@ {
        ElementKind::Inline(InlineStyle::Strong)
    } else if name == "em"@ || name == "i"@ {
        ElementKind::Inline(InlineStyle::Emphasis)
    } else if name == "mark"@ {
        ElementKind::Inline(InlineStyle::Mark)
    } else if name == "del"@ {
        ElementKind::Inline(InlineStyle::Strike)
    } else if name == "ins"@ {
        ElementKind::Inline(InlineStyle::Insert)
    } else if name == "div"@ || name == "article"@ || name == "section"@ {
        ElementKind::Container
    } else {
        ElementKind::Other
    }
}

/// The kind of the element named `name`.
pub fn classify(name: &str) -> (kind: ElementKind)
    ensures
        kind == element_kind(name@),
{
    let n = to_chars(name);
    if chars_eq_str(&n, "h1") {
        ElementKind::Heading(1)
    } else if chars_eq_str(&n, "h2") {
        ElementKind::Heading(2)
    } else if chars_eq_str(&n, "h3") {
        ElementKind::Heading(3)
    } else if chars_eq_str(&n, "h4") {
        ElementKind::Heading(4)
    } else if chars_eq_str(&n, "h5") {
        ElementKind::Heading(5)
    } else if chars_eq_str(&n, "h6") {
        ElementKind::Heading(6)
    } else if chars_eq_str(&n, "p") {
        ElementKind::Paragraph
    } else if chars_eq_str(&n, "pre") {
        ElementKind::Pre
    } else if chars_eq_str(&n, "blockquote") {
        ElementKind::Blockquote
    } else if chars_eq_str(&n, "a") {
        ElementKind::Anchor
    } else if chars_eq_str(&n, "img") {
        ElementKind::Image
    } else if chars_eq_str(&n, "meta") {
        ElementKind::Meta
    } else if chars_eq_str(&n, "code") {
        ElementKind::Code
    } else if chars_eq_str(&n, "table") {
        ElementKind::Table
    } else if chars_eq_str(&n, "tr") {
        ElementKind::TableRow
    } else if chars_eq_str(&n, "th") || chars_eq_str(&n, "td") {
        ElementKind::TableCell
    } else if chars_eq_str(&n, "ul") {
        ElementKind::UnorderedList
    } else if chars_eq_str(&n, "ol") {
        ElementKind::OrderedList
    } else if chars_eq_str(&n, "li") {
        ElementKind::ListItem
    } else if chars_eq_str(&n, "title") {
        ElementKind::Title
    } else if chars_eq_str(&n, "script") {
        ElementKind::Script
    } else if chars_eq_str(&n, "style") {
        ElementKind::Style
    } else if chars_eq_str(&n, "strong") || chars_eq_str(&n, "b") {
        ElementKind::Inline(InlineStyle::Strong)
    } else if chars_eq_str(&n, "em") || chars_eq_str(&n, "i") {
        ElementKind::Inline(InlineStyle::Emphasis)
    } else if chars_eq_str(&n, "mark") {
        ElementKind::Inline(InlineStyle::Mark)
    } else if chars_eq_str(&n, "del") {
        ElementKind::Inline(InlineStyle::Strike)
    } else if chars_eq_str(&n, "ins") {
        ElementKind::Inline(InlineStyle::Insert)
    } else if chars_eq_str(&n, "div") || chars_eq_str(&n, "article") || chars_eq_str(
        &n,
        "section",
    ) {
        ElementKind::Container
    } else {
        ElementKind::Other
    }
}

} // verus!
