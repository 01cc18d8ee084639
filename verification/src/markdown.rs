//! The formatter: a walk over a document tree that writes Markdown.
//!
//! [`Fmt`] is the state of the walk as a mathematical value, and its functions
//! say what each step of the walk does to it. [`MarkdownFormatter`] is the
//! state in memory; each of its methods is proved to do to its view what the
//! function of the same name does to a [`Fmt`].

use crate::config::{ConvertConfig, HtmlConversionResult};
use crate::dom::{
    find_attr, find_last_attr, first_attr, last_attr, lemma_node_view, parse,
    parsed_document, Attr, DomAttribute, DomData, DomNode, Tree, TreeData,
};
use crate::element::{classify, element_kind, style_marker, ElementKind, InlineStyle};
use crate::metadata::{Metadata, MetadataHandler};
use crate::table::{lemma_row_view, lemma_table_view, render_table, write_table};
use crate::text::{
    chars_eq, collapse, collapsed, decimal, ends_with_blank_line, ends_with_newline,
    find_language, language_of, lemma_chars_deep_view, lemma_push_deep_view, limit_breaks,
    limit_line_breaks, push_chars, push_quoted, push_repeated, push_str, quoted, repeated,
    starts_line, strip_trailing_newlines, to_chars, to_decimal, to_string, trim, trimmed,
    without_trailing_newlines,
};
use vstd::prelude::*;

verus! {

/// The kind of a list: numbered from a first number on, or bulleted.
#[derive(Debug, Clone, Copy, PartialEq, Eq, Structural)]
pub enum ListType {
    Ordered(u8),
    Unordered,
}

/// The structural category of a rendered element. It governs the blank lines
/// between blocks.
#[derive(Debug, Clone, Copy, PartialEq, Eq, Structural)]
pub enum BlockType {
    Paragraph,
    Header(u8),
    List(ListType),
    CodeBlock,
    Table,
    Quote,
    Pre,
    Div,
    Article,
    Section,
    TableRow,
    TableCell,
    TableHeader,
}

/// The indentation that a list of this kind adds to the lists inside it.
pub open spec fn list_width(list_type: ListType) -> nat {
    match list_type {
        ListType::Unordered => 2,
        ListType::Ordered(_) => 3,
    }
}

/// The indentation that the open lists `stack` add up to.
pub open spec fn indent_of(stack: Seq<ListType>) -> nat
    decreases stack.len(),
{
    if stack.len() == 0 {
        0
    } else {
        indent_of(stack.drop_last()) + list_width(stack.last())
    }
}

/// The indentation of the items of a list of kind `list_type` that is the
/// innermost of `stack`: what the lists round it add up to.
pub open spec fn item_indent(stack: Seq<ListType>, list_type: ListType) -> nat {
    if indent_of(stack) >= list_width(list_type) {
        (indent_of(stack) - list_width(list_type)) as nat
    } else {
        0
    }
}

/// Whether a conversion with `config` prunes the node: a script or a style
/// element, or a comment, where the cleaning rule for it is on; a processing
/// instruction always.
pub open spec fn is_pruned(config: ConvertConfig, t: Tree) -> bool {
    match t.data {
        TreeData::Element { name, attrs } => (config.cleaning_rules.remove_scripts && element_kind(
            name,
        ) == ElementKind::Script) || (config.cleaning_rules.remove_styles && element_kind(name)
            == ElementKind::Style),
        TreeData::Comment => config.cleaning_rules.remove_comments,
        TreeData::ProcessingInstruction => true,
        _ => false,
    }
}

/// Whether the tree is an `li` element.
pub open spec fn is_list_item(t: Tree) -> bool {
    match t.data {
        TreeData::Element { name, attrs } => element_kind(name) == ElementKind::ListItem,
        _ => false,
    }
}

/// The state of the formatter, as a mathematical value.
#[verifier::ext_equal]
pub struct Fmt {
    pub config: ConvertConfig,
    /// The Markdown written so far.
    pub content: Seq<char>,
    /// The kinds of the lists that are open, outermost first.
    pub list_type_stack: Seq<ListType>,
    /// The blocks that are open, outermost first.
    pub block_stack: Seq<BlockType>,
    /// The block for which spacing was added last.
    pub last_block_type: Option<BlockType>,
    /// Whether a block was just opened: nothing was written since.
    pub last_was_block: bool,
    pub in_table: bool,
    /// The finished rows of the table that is open.
    pub table_rows: Seq<Seq<Seq<char>>>,
    /// The finished cells of the row that is open.
    pub current_row: Seq<Seq<char>>,
    /// The text of the cell that is open.
    pub current_cell: Seq<char>,
    pub metadata: Metadata,
    pub in_code_block: bool,
    /// The markers of the quotes that are open: they start every line that
    /// is written.
    pub line_prefix: Seq<char>,
    /// The link targets met so far.
    pub links: Seq<Seq<char>>,
}

impl Fmt {
    /// The state in which a conversion with `config` starts.
    pub open spec fn new(config: ConvertConfig) -> Fmt {
        Fmt {
            config,
            content: Seq::empty(),
            list_type_stack: Seq::empty(),
            block_stack: Seq::empty(),
            last_block_type: None,
            last_was_block: false,
            in_table: false,
            table_rows: Seq::empty(),
            current_row: Seq::empty(),
            current_cell: Seq::empty(),
            metadata: Metadata::empty(),
            in_code_block: false,
            line_prefix: Seq::empty(),
            links: Seq::empty(),
        }
    }

    /// `s` is written. Inside a table it goes to the end of the open cell.
    /// Elsewhere it goes to the end of the content; inside quotes, every
    /// line that it starts gets the markers of the quotes, and once anything
    /// is written, the block that was opened last is no longer just opened.
    pub open spec fn write(self, s: Seq<char>) -> Fmt {
        if s.len() == 0 {
            self
        } else if self.in_table {
            Fmt { current_cell: self.current_cell + s, ..self }
        } else {
            Fmt {
                content: quoted(self.content, self.line_prefix, s),
                last_was_block: false,
                ..self
            }
        }
    }

    /// The text that is written to: the open cell inside a table, the
    /// content elsewhere.
    pub open spec fn target(self) -> Seq<char> {
        if self.in_table {
            self.current_cell
        } else {
            self.content
        }
    }

    /// The line is started: inside quotes, the markers stand at its start.
    pub open spec fn opened_line(self) -> Fmt {
        if !self.in_table && starts_line(self.content) {
            Fmt { content: self.content + self.line_prefix, ..self }
        } else {
            self
        }
    }

    /// The content ends with a line break afterwards, unless it is empty.
    pub open spec fn add_newline(self) -> Fmt {
        if self.content.len() > 0 && !ends_with_newline(self.content) {
            Fmt { content: self.content + seq!['\n'], ..self }
        } else {
            self
        }
    }

    /// The content ends with exactly two line breaks afterwards.
    pub open spec fn add_double_newline(self) -> Fmt {
        Fmt { content: without_trailing_newlines(self.content) + seq!['\n', '\n'], ..self }
    }

    /// The spacing that goes before a block of type `block_type`: a blank line
    /// before a heading; a blank line before a paragraph unless a block was
    /// just opened and nothing is written in it yet; a line break before a
    /// list of another kind than the last block; a blank line before code; a
    /// line break before anything else. The block is then the last one, and
    /// just opened.
    pub open spec fn add_block_spacing(self, block_type: BlockType) -> Fmt {
        let spaced = match block_type {
            BlockType::Header(_) => if !ends_with_blank_line(self.content) {
                self.add_double_newline()
            } else {
                self
            },
            BlockType::Paragraph => if !self.last_was_block {
                self.add_double_newline()
            } else {
                self
            },
            BlockType::List(list_type) => if self.last_block_type != Some(
                BlockType::List(list_type),
            ) {
                self.add_newline()
            } else {
                self
            },
            BlockType::CodeBlock | BlockType::Pre => self.add_double_newline(),
            _ => self.add_newline(),
        };
        Fmt { last_block_type: Some(block_type), last_was_block: true, ..spaced }
    }

    /// `block_type` is opened.
    pub open spec fn push_block(self, block_type: BlockType) -> Fmt {
        Fmt { block_stack: self.block_stack.push(block_type), ..self }
    }

    /// The innermost open block is closed.
    pub open spec fn pop_block(self) -> Fmt {
        if self.block_stack.len() > 0 {
            Fmt { block_stack: self.block_stack.drop_last(), ..self }
        } else {
            self
        }
    }

    /// What a text node with these contents contributes. Where white space is
    /// cleaned and no code is open, the text is trimmed and its runs of white
    /// space are collapsed; text of white space alone contributes nothing.
    /// Otherwise the text stands as it is.
    pub open spec fn clean_text(self, text: Seq<char>) -> Seq<char> {
        if self.config.clean_whitespace && !self.in_code_block {
            collapsed(trimmed(text), self.config.cleaning_rules.preserve_line_breaks)
        } else {
            text
        }
    }

    /// Whether the node is pruned.
    pub open spec fn skips(self, t: Tree) -> bool {
        is_pruned(self.config, t)
    }

    /// A text node: its cleaned text is written.
    pub open spec fn text(self, contents: Seq<char>) -> Fmt {
        self.write(self.clean_text(contents))
    }

    /// A heading of `level` starts: after the spacing and a blank line stand
    /// `level` hash signs and a space.
    pub open spec fn heading_open(self, level: u8) -> Fmt {
        self.push_block(BlockType::Header(level)).add_block_spacing(
            BlockType::Header(level),
        ).add_double_newline().write(repeated('#', level as nat) + seq![' '])
    }

    /// A heading ends with a blank line.
    pub open spec fn heading_close(self) -> Fmt {
        self.add_double_newline().pop_block()
    }

    /// A paragraph starts after its spacing.
    pub open spec fn paragraph_open(self) -> Fmt {
        self.push_block(BlockType::Paragraph).add_block_spacing(BlockType::Paragraph)
    }

    /// A paragraph ends with a blank line.
    pub open spec fn paragraph_close(self) -> Fmt {
        Fmt { last_was_block: false, ..self.pop_block().add_double_newline() }
    }

    /// The language named by the `class` attribute among `attrs`; empty where
    /// there is none.
    pub open spec fn fence_language(attrs: Seq<Attr>) -> Seq<char> {
        match first_attr(attrs, "class"@) {
            Some(class) => match language_of(class) {
                Some(language) => language,
                None => Seq::empty(),
            },
            None => Seq::empty(),
        }
    }

    /// A block of code starts: after the spacing stands a fence with the
    /// language, and from here on text is taken as it is.
    pub open spec fn pre_open(self, attrs: Seq<Attr>) -> Fmt {
        let spaced = self.push_block(BlockType::Pre).add_block_spacing(BlockType::Pre).push_block(
            BlockType::CodeBlock,
        );
        Fmt { in_code_block: true, ..spaced }.add_double_newline().write(
            seq!['`', '`', '`'] + Self::fence_language(attrs) + seq!['\n'],
        )
    }

    /// A block of code ends with a fence on a line of its own.
    pub open spec fn pre_close(self) -> Fmt {
        let fenced = self.write(seq!['\n', '`', '`', '`']).add_newline();
        Fmt { in_code_block: false, ..fenced }.pop_block().pop_block()
    }

    /// A quote starts on a line of its own: its marker joins those of the
    /// quotes round it, and from here on they stand at the start of every
    /// line that is written.
    pub open spec fn quote_open(self) -> Fmt {
        let spaced = self.push_block(BlockType::Quote).add_block_spacing(BlockType::Quote);
        Fmt { line_prefix: self.line_prefix + seq!['>', ' '], ..spaced }
    }

    /// A quote ends on a line break; the markers are those from before it,
    /// `prefix`, again.
    pub open spec fn quote_close(self, prefix: Seq<char>) -> Fmt {
        Fmt { line_prefix: prefix, last_was_block: false, ..self.add_newline() }.pop_block()
    }

    /// What was written since the text that is written to was `start` long.
    pub open spec fn written_since(self, start: nat) -> Seq<char> {
        if start <= self.target().len() {
            self.target().subrange(start as int, self.target().len() as int)
        } else {
            Seq::empty()
        }
    }

    /// A link as Markdown: text and target, or the target in angle brackets
    /// where there is no text or the text is the target.
    pub open spec fn link_markup(text: Seq<char>, href: Seq<char>) -> Seq<char> {
        if text.len() > 0 && text != href {
            seq!['['] + text + seq![']', '('] + href + seq![')']
        } else {
            seq!['<'] + href + seq!['>']
        }
    }

    /// A link to `href` ends: what was written since `start` is its text and
    /// is replaced by the link, as it stands, and `href` joins the links.
    pub open spec fn link_close(self, start: nat, href: Seq<char>) -> Fmt {
        let kept = if start <= self.target().len() {
            self.target().subrange(0, start as int)
        } else {
            self.target()
        };
        let linked = kept + Self::link_markup(self.written_since(start), href);
        if self.in_table {
            Fmt { current_cell: linked, links: self.links.push(href), ..self }
        } else {
            Fmt { content: linked, links: self.links.push(href), last_was_block: false, ..self }
        }
    }

    /// An image: on a line of its own, with the `alt` text if there is one.
    /// Nothing without a `src`.
    pub open spec fn image(self, attrs: Seq<Attr>) -> Fmt {
        match first_attr(attrs, "src"@) {
            Some(src) => {
                let alt = match first_attr(attrs, "alt"@) {
                    Some(alt) => alt,
                    None => Seq::empty(),
                };
                self.add_newline().write(
                    seq!['!', '['] + alt + seq![']', '('] + src + seq![')'],
                ).add_newline()
            },
            None => self,
        }
    }

    /// A `meta` element: the metadata takes in its property or name.
    pub open spec fn meta(self, attrs: Seq<Attr>) -> Fmt {
        Fmt {
            metadata: self.metadata.with_meta(
                last_attr(attrs, "property"@),
                last_attr(attrs, "name"@),
                last_attr(attrs, "content"@),
            ),
            ..self
        }
    }

    /// Inline code starts with a backtick; text is taken as it is.
    pub open spec fn code_open(self) -> Fmt {
        Fmt { in_code_block: true, ..self }.write(seq!['`'])
    }

    /// Inline code ends with a backtick; `was_code` says whether code was
    /// open round it.
    pub open spec fn code_close(self, was_code: bool) -> Fmt {
        Fmt { in_code_block: was_code, ..self.write(seq!['`']) }
    }

    /// A table starts: no row is gathered yet, and from here on what is
    /// written goes to the cells.
    pub open spec fn table_open(self) -> Fmt {
        Fmt { in_table: true, table_rows: Seq::empty(), ..self }
    }

    /// A table ends: its rows, if it has any, are written to the content
    /// after a blank line.
    pub open spec fn table_close(self) -> Fmt {
        let closed = Fmt { in_table: false, ..self };
        if self.table_rows.len() > 0 {
            closed.add_double_newline().write(render_table(self.table_rows)).add_newline()
        } else {
            closed
        }
    }

    /// A row starts without cells.
    pub open spec fn row_open(self) -> Fmt {
        Fmt { current_row: Seq::empty(), ..self }
    }

    /// A row ends: it joins the rows of the table unless it has no cell.
    pub open spec fn row_close(self) -> Fmt {
        if self.current_row.len() > 0 {
            Fmt { table_rows: self.table_rows.push(self.current_row), ..self }
        } else {
            self
        }
    }

    /// A cell starts empty.
    pub open spec fn cell_open(self) -> Fmt {
        Fmt { current_cell: Seq::empty(), ..self }
    }

    /// The text of a finished cell: trimmed, and with its runs of white space
    /// collapsed where white space is cleaned.
    pub open spec fn cell_text(self) -> Seq<char> {
        if self.config.clean_whitespace {
            collapsed(trimmed(self.current_cell), false)
        } else {
            trimmed(self.current_cell)
        }
    }

    /// A cell ends: its text joins the cells of the row.
    pub open spec fn cell_close(self) -> Fmt {
        Fmt { current_row: self.current_row.push(self.cell_text()), ..self }
    }

    /// A list of kind `list_type` starts.
    pub open spec fn list_open(self, list_type: ListType) -> Fmt {
        Fmt {
            list_type_stack: self.list_type_stack.push(list_type),
            ..self.push_block(BlockType::List(list_type))
        }
    }

    /// A list ends on a line break.
    pub open spec fn list_close(self) -> Fmt {
        let popped = self.pop_block();
        Fmt {
            list_type_stack: if popped.list_type_stack.len() > 0 {
                popped.list_type_stack.drop_last()
            } else {
                popped.list_type_stack
            },
            ..popped
        }.add_newline()
    }

    /// The marker of item `number` of a list: its indentation, then a bullet
    /// or the number.
    pub open spec fn item_marker(self, list_type: ListType, number: nat) -> Seq<char> {
        repeated(' ', item_indent(self.list_type_stack, list_type)) + match list_type {
            ListType::Unordered => seq!['*', ' '],
            ListType::Ordered(_) => decimal(number) + seq!['.', ' '],
        }
    }

    /// An item starts on a line of its own with its marker. The item is then
    /// just opened: a paragraph that opens it stays on the line of the marker.
    pub open spec fn item_open(self, list_type: ListType, number: nat) -> Fmt {
        Fmt {
            last_was_block: true,
            ..self.add_newline().write(self.item_marker(list_type, number))
        }
    }

    /// The blank lines round a container.
    pub open spec fn isolate(self) -> Fmt {
        self.add_double_newline()
    }

    /// The walk over the tree `t`, from this state.
    pub open spec fn process_node(self, t: Tree) -> Fmt
        decreases t, 0nat,
    {
        if self.skips(t) {
            self
        } else {
            match t.data {
                TreeData::Element { name, attrs } => match element_kind(name) {
                    ElementKind::Heading(level) => if self.config.preserve_headings && level
                        <= self.config.max_heading_level {
                        self.heading_open(level).process_children(t.children, 0).heading_close()
                    } else {
                        self.process_children(t.children, 0)
                    },
                    ElementKind::Paragraph => self.paragraph_open().process_children(
                        t.children,
                        0,
                    ).paragraph_close(),
                    ElementKind::Pre => self.pre_open(attrs).process_children(
                        t.children,
                        0,
                    ).pre_close(),
                    ElementKind::Blockquote => self.quote_open().process_children(
                        t.children,
                        0,
                    ).quote_close(self.line_prefix),
                    ElementKind::Anchor => if !self.config.include_links {
                        self.process_children(t.children, 0)
                    } else {
                        match first_attr(attrs, "href"@) {
                            Some(href) => self.opened_line().process_children(
                                t.children,
                                0,
                            ).link_close(self.opened_line().target().len(), href),
                            None => self,
                        }
                    },
                    ElementKind::Image => self.image(attrs),
                    ElementKind::Meta => if self.config.include_metadata {
                        self.meta(attrs)
                    } else {
                        self.process_children(t.children, 0)
                    },
                    ElementKind::Code => self.code_open().process_children(
                        t.children,
                        0,
                    ).code_close(self.in_code_block),
                    ElementKind::Table => self.table_open().process_children(
                        t.children,
                        0,
                    ).table_close(),
                    ElementKind::TableRow => if self.in_table {
                        self.row_open().process_children(t.children, 0).row_close()
                    } else {
                        self.isolate().process_children(t.children, 0).isolate()
                    },
                    ElementKind::TableCell => if self.in_table {
                        self.cell_open().process_children(t.children, 0).cell_close()
                    } else {
                        self.isolate().process_children(t.children, 0).isolate()
                    },
                    ElementKind::UnorderedList => self.list_open(ListType::Unordered).process_items(
                        t.children,
                        0,
                        ListType::Unordered,
                        0,
                    ).list_close(),
                    ElementKind::OrderedList => self.list_open(ListType::Ordered(1)).process_items(
                        t.children,
                        0,
                        ListType::Ordered(1),
                        0,
                    ).list_close(),
                    ElementKind::Inline(style) => self.write(style_marker(style)).process_children(
                        t.children,
                        0,
                    ).write(style_marker(style)),
                    ElementKind::Container => self.isolate().process_children(
                        t.children,
                        0,
                    ).isolate(),
                    _ => self.process_children(t.children, 0),
                },
                TreeData::Text { contents } => self.text(contents),
                _ => self.process_children(t.children, 0),
            }
        }
    }

    /// The walk over the trees `ts[i..]`, one after the other.
    pub open spec fn process_children(self, ts: Seq<Tree>, i: int) -> Fmt
        decreases ts, ts.len() - i,
    {
        if !(0 <= i < ts.len()) {
            self
        } else {
            self.process_node(ts[i]).process_children(ts, i + 1)
        }
    }

    /// The walk over the children `ts[i..]` of a list of kind `list_type`, of
    /// which `done` items are written: each `li` gets its marker, with the
    /// next number, and ends on a line break; anything else is walked over
    /// as it is.
    pub open spec fn process_items(
        self,
        ts: Seq<Tree>,
        i: int,
        list_type: ListType,
        done: nat,
    ) -> Fmt
        decreases ts, ts.len() - i,
    {
        if !(0 <= i < ts.len()) {
            self
        } else if is_list_item(ts[i]) {
            self.item_open(list_type, done + 1).process_node(ts[i]).add_newline().process_items(
                ts,
                i + 1,
                list_type,
                done + 1,
            )
        } else {
            self.process_node(ts[i]).process_items(ts, i + 1, list_type, done)
        }
    }

    /// The Markdown of the finished walk: the metadata block, where metadata
    /// is included, then the trimmed content; runs of more than two line
    /// breaks are cut down to two unless line breaks are preserved; the whole
    /// is trimmed.
    pub open spec fn markdown(self) -> Seq<char> {
        let head = if self.config.include_metadata {
            self.metadata.formatted()
        } else {
            Seq::empty()
        };
        let whole = head + trimmed(self.content);
        if !self.config.cleaning_rules.preserve_line_breaks {
            trimmed(limit_breaks(whole))
        } else {
            trimmed(whole)
        }
    }
}

/// The state of the formatter in memory.
pub struct MarkdownFormatter {
    pub config: ConvertConfig,
    pub content: Vec<char>,
    pub list_type_stack: Vec<ListType>,
    pub block_stack: Vec<BlockType>,
    pub last_block_type: Option<BlockType>,
    pub in_table: bool,
    pub table_rows: Vec<Vec<Vec<char>>>,
    pub current_row: Vec<Vec<char>>,
    pub current_cell: Vec<char>,
    pub metadata: MetadataHandler,
    pub in_code_block: bool,
    pub last_was_block: bool,
    pub line_prefix: Vec<char>,
    pub links: Vec<String>,
}

impl View for MarkdownFormatter {
    type V = Fmt;

    open spec fn view(&self) -> Fmt {
        Fmt {
            config: self.config,
            content: self.content@,
            list_type_stack: self.list_type_stack@,
            block_stack: self.block_stack@,
            last_block_type: self.last_block_type,
            last_was_block: self.last_was_block,
            in_table: self.in_table,
            table_rows: self.table_rows.deep_view(),
            current_row: self.current_row.deep_view(),
            current_cell: self.current_cell@,
            metadata: self.metadata@,
            in_code_block: self.in_code_block,
            line_prefix: self.line_prefix@,
            links: self.links.deep_view(),
        }
    }
}

impl MarkdownFormatter {
    /// A formatter at the start of a conversion with `config`.
    pub fn new(config: ConvertConfig) -> (formatter: MarkdownFormatter)
        ensures
            formatter@ == Fmt::new(config),
    {
        let formatter = MarkdownFormatter {
            config,
            content: Vec::new(),
            list_type_stack: Vec::new(),
            block_stack: Vec::new(),
            last_block_type: None,
            in_table: false,
            table_rows: Vec::new(),
            current_row: Vec::new(),
            current_cell: Vec::new(),
            metadata: MetadataHandler::new(),
            in_code_block: false,
            last_was_block: false,
            line_prefix: Vec::new(),
            links: Vec::new(),
        };
        assert(formatter.table_rows.deep_view() =~= Seq::<Seq<Seq<char>>>::empty());
        assert(formatter.current_row.deep_view() =~= Seq::<Seq<char>>::empty());
        assert(formatter.links.deep_view() =~= Seq::<Seq<char>>::empty());
        formatter
    }

    /// Ends the content with a line break, unless it is empty or has one.
    pub fn add_newline(&mut self)
        ensures
            final(self)@ == old(self)@.add_newline(),
    {
        let n: usize = self.content.len();
        if n > 0 && self.content[n - 1] != '\n' {
            self.content.push('\n');
            assert(self.content@ == old(self).content@ + seq!['\n']);
        }
    }

    /// Ends the content with exactly two line breaks.
    pub fn add_double_newline(&mut self)
        ensures
            final(self)@ == old(self)@.add_double_newline(),
    {
        strip_trailing_newlines(&mut self.content);
        let ghost stripped = self.content@;
        self.content.push('\n');
        self.content.push('\n');
        assert(self.content@ == stripped + seq!['\n', '\n']);
    }

    /// Writes `text` at the end of the content.
    pub fn write_chars(&mut self, text: &Vec<char>)
        ensures
            final(self)@ == old(self)@.write(text@),
    {
        if text.len() > 0 {
            if self.in_table {
                push_chars(&mut self.current_cell, text);
            } else {
                push_quoted(&mut self.content, &self.line_prefix, text);
                self.last_was_block = false;
            }
        }
    }

    /// Writes `c` at the end of the content.
    fn write_char(&mut self, c: char)
        ensures
            final(self)@ == old(self)@.write(seq![c]),
    {
        let mut text: Vec<char> = Vec::new();
        text.push(c);
        self.write_chars(&text);
    }

    /// Adds the spacing that goes before a block of type `block_type`.
    pub fn add_block_spacing(&mut self, block_type: BlockType)
        ensures
            final(self)@ == old(self)@.add_block_spacing(block_type),
    {
        match block_type {
            BlockType::Header(_) => {
                let n: usize = self.content.len();
                let blank = n >= 2 && self.content[n - 1] == '\n' && self.content[n - 2] == '\n';
                if !blank {
                    self.add_double_newline();
                }
            },
            BlockType::Paragraph => {
                if !self.last_was_block {
                    self.add_double_newline();
                }
            },
            BlockType::List(list_type) => {
                let same = match self.last_block_type {
                    Some(BlockType::List(last)) => last == list_type,
                    _ => false,
                };
                if !same {
                    self.add_newline();
                }
            },
            BlockType::CodeBlock | BlockType::Pre => {
                self.add_double_newline();
            },
            _ => {
                self.add_newline();
            },
        }
        self.last_block_type = Some(block_type);
        self.last_was_block = true;
    }

    /// Whether `node` is pruned.
    pub fn should_skip_node(&self, node: &DomNode) -> (skip: bool)
        ensures
            skip == self@.skips(node@),
    {
        proof {
            lemma_node_view(*node);
        }
        match &node.data {
            DomData::Element { name, attrs } => {
                let kind = classify(name.as_str());
                (self.config.cleaning_rules.remove_scripts && kind == ElementKind::Script) || (
                self.config.cleaning_rules.remove_styles && kind == ElementKind::Style)
            },
            DomData::Comment => self.config.cleaning_rules.remove_comments,
            DomData::ProcessingInstruction => true,
            _ => false,
        }
    }

    /// What a text node with the contents `text` contributes.
    pub fn clean_text(&self, text: &str) -> (cleaned: Vec<char>)
        ensures
            cleaned@ == self@.clean_text(text@),
    {
        let chars = to_chars(text);
        if self.config.clean_whitespace && !self.in_code_block {
            let inner = trim(&chars);
            collapse(&inner, self.config.cleaning_rules.preserve_line_breaks)
        } else {
            chars
        }
    }

    /// Closes the cell that is open: its text joins the cells of the row.
    fn finish_cell(&mut self)
        ensures
            final(self)@ == old(self)@.cell_close(),
    {
        let inner = trim(&self.current_cell);
        let cell = if self.config.clean_whitespace {
            collapse(&inner, false)
        } else {
            inner
        };
        let ghost shorter = self.current_row;
        self.current_row.push(cell);
        proof {
            lemma_push_deep_view(shorter, self.current_row, cell);
        }
    }

    /// Closes the row that is open: it joins the rows of the table unless it
    /// has no cell.
    fn finish_row(&mut self)
        ensures
            final(self)@ == old(self)@.row_close(),
    {
        proof {
            lemma_row_view(self.current_row);
        }
        if self.current_row.len() > 0 {
            let mut row: Vec<Vec<char>> = Vec::new();
            let mut c: usize = 0;
            while c < self.current_row.len()
                invariant
                    c <= self.current_row.len(),
                    row.len() == c,
                    forall|k: int| 0 <= k < c ==> (#[trigger] row[k])@ == self.current_row[k]@,
                    *self == *old(self),
                decreases self.current_row.len() - c,
            {
                let mut cell: Vec<char> = Vec::new();
                push_chars(&mut cell, &self.current_row[c]);
                row.push(cell);
                c += 1;
            }
            proof {
                lemma_row_view(row);
                assert(row.deep_view() =~= self.current_row.deep_view());
            }
            let ghost shorter = self.table_rows;
            self.table_rows.push(row);
            proof {
                lemma_table_view(shorter);
                lemma_table_view(self.table_rows);
                assert(self.table_rows.deep_view() =~= shorter.deep_view().push(row.deep_view()));
            }
        }
    }

    /// A cell of a table that is open: the text below `node` becomes a cell.
    pub fn process_table_cell(&mut self, node: &DomNode)
        ensures
            final(self)@ == old(self)@.cell_open().process_children(
                node@.children,
                0,
            ).cell_close(),
        decreases node, 1nat,
    {
        self.current_cell = Vec::new();
        self.process_children(node);
        self.finish_cell();
    }

    /// The walk over `node` and what is below it.
    pub fn process_node(&mut self, node: &DomNode)
        ensures
            final(self)@ == old(self)@.process_node(node@),
        decreases node, 3nat,
    {
        proof {
            lemma_node_view(*node);
        }
        if self.should_skip_node(node) {
            return ;
        }
        match &node.data {
            DomData::Element { name, attrs } => {
                self.process_element(node, classify(name.as_str()), attrs);
            },
            DomData::Text { contents } => {
                let cleaned = self.clean_text(contents.as_str());
                self.write_chars(&cleaned);
            },
            _ => {
                self.process_children(node);
            },
        }
    }

    /// The walk over the element `node`, which is of kind `kind`, has the
    /// attributes `attrs` and is not pruned.
    #[verifier::rlimit(60)]
    fn process_element(&mut self, node: &DomNode, kind: ElementKind, attrs: &Vec<DomAttribute>)
        requires
            !old(self)@.skips(node@),
            node@.data matches TreeData::Element { name, attrs: a } && kind == element_kind(name)
                && a == attrs.deep_view(),
        ensures
            final(self)@ == old(self)@.process_node(node@),
        decreases node, 2nat,
    {
        match kind {
            ElementKind::Heading(level) => {
                if self.config.preserve_headings && level <= self.config.max_heading_level {
                    self.block_stack.push(BlockType::Header(level));
                    self.add_block_spacing(BlockType::Header(level));
                    self.process_header(node, level);
                    self.block_stack.pop();
                } else {
                    self.process_children(node);
                }
            },
            ElementKind::Paragraph => {
                self.block_stack.push(BlockType::Paragraph);
                self.add_block_spacing(BlockType::Paragraph);
                self.process_children(node);
                self.block_stack.pop();
                self.add_double_newline();
                self.last_was_block = false;
            },
            ElementKind::Pre => {
                self.block_stack.push(BlockType::Pre);
                self.add_block_spacing(BlockType::Pre);
                self.process_code_block(node, attrs);
                self.block_stack.pop();
            },
            ElementKind::Blockquote => {
                self.block_stack.push(BlockType::Quote);
                self.add_block_spacing(BlockType::Quote);
                self.process_quote(node);
                self.block_stack.pop();
            },
            ElementKind::Anchor => {
                self.process_link(node, attrs);
            },
            ElementKind::Image => {
                self.process_image(node, attrs);
            },
            ElementKind::Meta => {
                if self.config.include_metadata {
                    self.extract_metadata(node, attrs);
                } else {
                    self.process_children(node);
                }
            },
            ElementKind::Code => {
                self.process_inline_code(node);
            },
            ElementKind::Table => {
                self.process_table(node);
            },
            ElementKind::TableRow => {
                if self.in_table {
                    self.current_row = Vec::new();
                    assert(self.current_row.deep_view() =~= Seq::<Seq<char>>::empty());
                    self.process_children(node);
                    self.finish_row();
                } else {
                    self.add_double_newline();
                    self.process_children(node);
                    self.add_double_newline();
                }
            },
            ElementKind::TableCell => {
                if self.in_table {
                    self.process_table_cell(node);
                } else {
                    self.add_double_newline();
                    self.process_children(node);
                    self.add_double_newline();
                }
            },
            ElementKind::UnorderedList => {
                self.process_list(node, ListType::Unordered);
            },
            ElementKind::OrderedList => {
                self.process_list(node, ListType::Ordered(1));
            },
            ElementKind::Inline(style) => {
                self.push_marker(style);
                self.process_children(node);
                self.push_marker(style);
            },
            ElementKind::Container => {
                self.add_double_newline();
                self.process_children(node);
                self.add_double_newline();
            },
            _ => {
                self.process_children(node);
            },
        }
    }

    /// Writes the marker of an inline style.
    fn push_marker(&mut self, style: InlineStyle)
        ensures
            final(self)@ == old(self)@.write(style_marker(style)),
    {
        let mut marker: Vec<char> = Vec::new();
        match style {
            InlineStyle::Strong => {
                marker.push('*');
                marker.push('*');
            },
            InlineStyle::Emphasis => {
                marker.push('*');
            },
            InlineStyle::Mark => {
                marker.push('=');
                marker.push('=');
            },
            InlineStyle::Strike => {
                marker.push('~');
                marker.push('~');
            },
            InlineStyle::Insert => {
                marker.push('_');
                marker.push('_');
            },
        }
        assert(marker@ == style_marker(style));
        self.write_chars(&marker);
    }

    /// A quote: what is below `node`, with the marker of the quote on every
    /// line, and a line break.
    pub fn process_quote(&mut self, node: &DomNode)
        ensures
            final(self)@ == (Fmt {
                line_prefix: old(self)@.line_prefix,
                last_was_block: false,
                ..(Fmt {
                    line_prefix: old(self)@.line_prefix + seq!['>', ' '],
                    ..old(self)@
                }).process_children(node@.children, 0).add_newline()
            }),
        decreases node, 1nat,
    {
        let mut old_prefix: Vec<char> = Vec::new();
        push_chars(&mut old_prefix, &self.line_prefix);
        self.line_prefix.push('>');
        self.line_prefix.push(' ');
        assert(self.line_prefix@ == old(self)@.line_prefix + seq!['>', ' ']);
        self.process_children(node);
        self.add_newline();
        self.line_prefix = old_prefix;
        self.last_was_block = false;
    }

    /// A block of code: the fence with the language that `attrs` name, what
    /// is below `node` as it stands, and the closing fence.
    pub fn process_code_block(&mut self, node: &DomNode, attrs: &Vec<DomAttribute>)
        ensures
            final(self)@ == (Fmt {
                in_code_block: false,
                ..(Fmt {
                    in_code_block: true,
                    ..old(self)@.push_block(BlockType::CodeBlock)
                }).add_double_newline().write(
                    seq!['`', '`', '`'] + Fmt::fence_language(attrs.deep_view()) + seq!['\n'],
                ).process_children(node@.children, 0).write(
                    seq!['\n', '`', '`', '`'],
                ).add_newline()
            }).pop_block(),
        decreases node, 1nat,
    {
        self.block_stack.push(BlockType::CodeBlock);
        self.in_code_block = true;
        self.add_double_newline();
        let mut fence: Vec<char> = Vec::new();
        fence.push('`');
        fence.push('`');
        fence.push('`');
        match find_attr(attrs, "class") {
            Some(class) => {
                let class_chars = to_chars(class);
                match find_language(&class_chars) {
                    Some(language) => {
                        proof {
                            lemma_chars_deep_view(language);
                        }
                        push_chars(&mut fence, &language);
                    },
                    None => {},
                }
            },
            None => {},
        }
        fence.push('\n');
        assert(fence@ == seq!['`', '`', '`'] + Fmt::fence_language(attrs.deep_view()) + seq![
            '\n',
        ]);
        self.write_chars(&fence);
        self.process_children(node);
        let mut close: Vec<char> = Vec::new();
        close.push('\n');
        close.push('`');
        close.push('`');
        close.push('`');
        assert(close@ == seq!['\n', '`', '`', '`']);
        self.write_chars(&close);
        self.add_newline();
        self.in_code_block = false;
        self.block_stack.pop();
    }

    /// Inline code: what is below `node` as it stands, between backticks.
    pub fn process_inline_code(&mut self, node: &DomNode)
        ensures
            final(self)@ == old(self)@.code_open().process_children(node@.children, 0).code_close(
                old(self)@.in_code_block,
            ),
        decreases node, 1nat,
    {
        let was_in_code = self.in_code_block;
        self.in_code_block = true;
        self.write_char('`');
        self.process_children(node);
        self.write_char('`');
        self.in_code_block = was_in_code;
    }

    /// A heading of `level`: the hash signs, what is below `node`, and a
    /// blank line.
    pub fn process_header(&mut self, node: &DomNode, level: u8)
        ensures
            final(self)@ == old(self)@.add_double_newline().write(
                repeated('#', level as nat) + seq![' '],
            ).process_children(node@.children, 0).add_double_newline(),
        decreases node, 1nat,
    {
        self.add_double_newline();
        let mut marker: Vec<char> = Vec::new();
        push_repeated(&mut marker, '#', level as usize);
        marker.push(' ');
        assert(marker@ == repeated('#', level as nat) + seq![' ']);
        self.write_chars(&marker);
        self.process_children(node);
        self.add_double_newline();
    }

    /// Puts the link to `href` in the place of what was written to `target`
    /// since it was `start` long.
    fn link_text(target: &mut Vec<char>, start: usize, href: &str)
        ensures
            final(target)@ == (if start <= old(target)@.len() {
                old(target)@.subrange(0, start as int)
            } else {
                old(target)@
            }) + Fmt::link_markup(
                if start <= old(target)@.len() {
                    old(target)@.subrange(start as int, old(target)@.len() as int)
                } else {
                    Seq::empty()
                },
                href@,
            ),
    {
        let len: usize = target.len();
        let mut text: Vec<char> = Vec::new();
        if start <= len {
            let mut k: usize = start;
            while k < len
                invariant
                    start <= k <= len,
                    len == target.len(),
                    text@ == target@.subrange(start as int, k as int),
                    target@ == old(target)@,
                decreases len - k,
            {
                text.push(target[k]);
                k += 1;
            }
            target.truncate(start);
        }
        let ghost kept = target@;
        let address = to_chars(href);
        if text.len() > 0 && !chars_eq(&text, &address) {
            target.push('[');
            push_chars(target, &text);
            target.push(']');
            target.push('(');
            push_chars(target, &address);
            target.push(')');
            assert(target@ == kept + (seq!['['] + text@ + seq![']', '('] + address@ + seq![')']));
        } else {
            target.push('<');
            push_chars(target, &address);
            target.push('>');
            assert(target@ == kept + (seq!['<'] + address@ + seq!['>']));
        }
    }

    /// Closes the link to `href` whose text was written since the text that
    /// is written to was `start` long.
    fn finish_link(&mut self, start: usize, href: &str)
        ensures
            final(self)@ == old(self)@.link_close(start as nat, href@),
    {
        if self.in_table {
            Self::link_text(&mut self.current_cell, start, href);
        } else {
            Self::link_text(&mut self.content, start, href);
            self.last_was_block = false;
        }
        let ghost shorter = self.links.deep_view();
        self.links.push(href.to_owned());
        assert(self.links.deep_view() =~= shorter.push(href@));
    }

    /// An anchor. Where links are included and it has a target, what is
    /// written below `node` becomes the text of a link; where links are left
    /// out, only what is below it is written.
    pub fn process_link(&mut self, node: &DomNode, attrs: &Vec<DomAttribute>)
        ensures
            final(self)@ == if !old(self)@.config.include_links {
                old(self)@.process_children(node@.children, 0)
            } else {
                match first_attr(attrs.deep_view(), "href"@) {
                    Some(href) => old(self)@.opened_line().process_children(
                        node@.children,
                        0,
                    ).link_close(old(self)@.opened_line().target().len(), href),
                    None => old(self)@,
                }
            },
        decreases node, 1nat,
    {
        if !self.config.include_links {
            self.process_children(node);
            return ;
        }
        match find_attr(attrs, "href") {
            Some(href) => {
                let n: usize = self.content.len();
                if !self.in_table && (n == 0 || self.content[n - 1] == '\n') {
                    push_chars(&mut self.content, &self.line_prefix);
                }
                let start: usize = if self.in_table {
                    self.current_cell.len()
                } else {
                    self.content.len()
                };
                self.process_children(node);
                self.finish_link(start, href);
            },
            None => {},
        }
    }

    /// A table: the rows below `node` are gathered and then written.
    pub fn process_table(&mut self, node: &DomNode)
        ensures
            final(self)@ == old(self)@.table_open().process_children(
                node@.children,
                0,
            ).table_close(),
        decreases node, 1nat,
    {
        self.in_table = true;
        self.table_rows = Vec::new();
        assert(self.table_rows.deep_view() =~= Seq::<Seq<Seq<char>>>::empty());
        self.process_children(node);
        proof {
            lemma_table_view(self.table_rows);
        }
        self.in_table = false;
        if self.table_rows.len() > 0 {
            self.add_double_newline();
            let mut table: Vec<char> = Vec::new();
            write_table(&mut table, &self.table_rows);
            assert(table@ == Seq::<char>::empty() + render_table(self.table_rows.deep_view()));
            self.write_chars(&table);
            self.add_newline();
        }
    }

    /// An image, from the attributes `attrs` of `node`.
    pub fn process_image(&mut self, node: &DomNode, attrs: &Vec<DomAttribute>)
        ensures
            final(self)@ == old(self)@.image(attrs.deep_view()),
    {
        match find_attr(attrs, "src") {
            Some(src) => {
                self.add_newline();
                let mut image: Vec<char> = Vec::new();
                image.push('!');
                image.push('[');
                let ghost alt_text = match first_attr(attrs.deep_view(), "alt"@) {
                    Some(alt) => alt,
                    None => Seq::<char>::empty(),
                };
                match find_attr(attrs, "alt") {
                    Some(alt) => {
                        push_str(&mut image, alt);
                    },
                    None => {},
                }
                image.push(']');
                image.push('(');
                push_str(&mut image, src);
                image.push(')');
                assert(image@ == seq!['!', '['] + alt_text + seq![']', '('] + src@ + seq![')']);
                self.write_chars(&image);
                self.add_newline();
            },
            None => {},
        }
    }

    /// Writes the marker of item `number` of a list of kind `list_type`.
    fn push_item_marker(&mut self, list_type: ListType, number: u64)
        ensures
            final(self)@ == old(self)@.write(old(self)@.item_marker(list_type, number as nat)),
    {
        let mut sum: u128 = 0;
        let mut k: usize = 0;
        while k < self.list_type_stack.len()
            invariant
                k <= self.list_type_stack.len(),
                sum == indent_of(self.list_type_stack@.take(k as int)),
                sum <= 3 * k,
                *self == *old(self),
            decreases self.list_type_stack.len() - k,
        {
            let w: u128 = match self.list_type_stack[k] {
                ListType::Unordered => 2,
                ListType::Ordered(_) => 3,
            };
            assert(self.list_type_stack@.take(k + 1).drop_last() == self.list_type_stack@.take(
                k as int,
            ));
            sum = sum + w;
            k += 1;
        }
        assert(self.list_type_stack@.take(self.list_type_stack.len() as int)
            == self.list_type_stack@);
        let own: u128 = match list_type {
            ListType::Unordered => 2,
            ListType::Ordered(_) => 3,
        };
        let mut fill: u128 = if sum >= own {
            sum - own
        } else {
            0
        };
        let ghost total = fill;
        let mut marker: Vec<char> = Vec::new();
        while fill > 0
            invariant
                fill <= total,
                marker@ == repeated(' ', (total - fill) as nat),
            decreases fill,
        {
            marker.push(' ');
            fill -= 1;
        }
        match list_type {
            ListType::Unordered => {
                marker.push('*');
                marker.push(' ');
                assert(marker@ == repeated(' ', total as nat) + seq!['*', ' ']);
            },
            ListType::Ordered(_) => {
                let digits = to_decimal(number);
                push_chars(&mut marker, &digits);
                marker.push('.');
                marker.push(' ');
                assert(marker@ == repeated(' ', total as nat) + (decimal(number as nat) + seq![
                    '.',
                    ' ',
                ]));
            },
        }
        self.write_chars(&marker);
    }

    /// A list of kind `list_type`: each `li` below `node` gets its marker.
    pub fn process_list(&mut self, node: &DomNode, list_type: ListType)
        ensures
            final(self)@ == old(self)@.list_open(list_type).process_items(
                node@.children,
                0,
                list_type,
                0,
            ).list_close(),
        decreases node, 1nat,
    {
        self.block_stack.push(BlockType::List(list_type));
        self.list_type_stack.push(list_type);
        let ghost start = self@;
        let ghost ts = node@.children;
        let mut done: u64 = 0;
        let mut i: usize = 0;
        proof {
            lemma_node_view(*node);
        }
        while i < node.children.len()
            invariant
                i <= node.children.len(),
                done <= i,
                ts == node@.children,
                ts.len() == node.children@.len(),
                forall|k: int|
                    0 <= k < node.children@.len() ==> #[trigger] ts[k] == node.children@[k]@,
                self@.process_items(ts, i as int, list_type, done as nat) == start.process_items(
                    ts,
                    0,
                    list_type,
                    0,
                ),
            decreases node.children.len() - i,
        {
            let child = &node.children[i];
            if is_list_item_node(child) {
                self.add_newline();
                self.push_item_marker(list_type, done + 1);
                self.last_was_block = true;
                self.process_node(child);
                self.add_newline();
                done += 1;
            } else {
                self.process_node(child);
            }
            i += 1;
        }
        self.block_stack.pop();
        self.list_type_stack.pop();
        self.add_newline();
    }

    /// A `meta` element with the attributes `attrs`: the metadata takes in
    /// its property or name. Of several attributes of one name the last counts.
    pub fn extract_metadata(&mut self, node: &DomNode, attrs: &Vec<DomAttribute>)
        ensures
            final(self)@ == old(self)@.meta(attrs.deep_view()),
    {
        match find_last_attr(attrs, "content") {
            Some(content) => {
                match find_last_attr(attrs, "property") {
                    Some(property) => {
                        self.metadata.record_property(property, content);
                    },
                    None => {
                        match find_last_attr(attrs, "name") {
                            Some(name) => {
                                self.metadata.record_name(name, content);
                            },
                            None => {},
                        }
                    },
                }
            },
            None => {},
        }
    }

    /// The walk over what is below `node`, in order.
    pub fn process_children(&mut self, node: &DomNode)
        ensures
            final(self)@ == old(self)@.process_children(node@.children, 0),
        decreases node, 0nat,
    {
        let ghost ts = node@.children;
        let mut i: usize = 0;
        proof {
            lemma_node_view(*node);
        }
        while i < node.children.len()
            invariant
                i <= node.children.len(),
                ts == node@.children,
                ts.len() == node.children@.len(),
                forall|k: int|
                    0 <= k < node.children@.len() ==> #[trigger] ts[k] == node.children@[k]@,
                self@.process_children(ts, i as int) == old(self)@.process_children(ts, 0),
            decreases node.children.len() - i,
        {
            self.process_node(&node.children[i]);
            i += 1;
        }
    }

    /// The result of the finished walk.
    pub fn result(self) -> (converted: HtmlConversionResult)
        ensures
            converted.markdown@ == self@.markdown(),
            converted.links.deep_view() == self@.links,
    {
        let mut formatter = self;
        let mut whole: Vec<char> = Vec::new();
        if formatter.config.include_metadata {
            let block = formatter.metadata.format_metadata();
            push_str(&mut whole, block);
        }
        let body = trim(&formatter.content);
        push_chars(&mut whole, &body);
        let markdown = if !formatter.config.cleaning_rules.preserve_line_breaks {
            let limited = limit_line_breaks(&whole);
            trim(&limited)
        } else {
            trim(&whole)
        };
        HtmlConversionResult { markdown: to_string(&markdown), links: formatter.links }
    }
}

/// Whether `node` is an `li` element.
pub fn is_list_item_node(node: &DomNode) -> (r: bool)
    ensures
        r == is_list_item(node@),
{
    proof {
        lemma_node_view(*node);
    }
    match &node.data {
        DomData::Element { name, attrs } => classify(name.as_str()) == ElementKind::ListItem,
        _ => false,
    }
}

/// The text below a node: the contents of a text node, the texts below the
/// children of an element in order, and nothing for any other node.
pub open spec fn text_of(t: Tree) -> Seq<char>
    decreases t, 0nat,
{
    match t.data {
        TreeData::Text { contents } => contents,
        TreeData::Element { name, attrs } => text_among(t.children, 0),
        _ => Seq::empty(),
    }
}

/// The texts below the trees `ts[i..]`, in order.
pub open spec fn text_among(ts: Seq<Tree>, i: int) -> Seq<char>
    decreases ts, ts.len() - i,
{
    if !(0 <= i < ts.len()) {
        Seq::empty()
    } else {
        text_of(ts[i]) + text_among(ts, i + 1)
    }
}

/// Whether the tree is a `title` element.
pub open spec fn is_title(t: Tree) -> bool {
    match t.data {
        TreeData::Element { name, attrs } => element_kind(name) == ElementKind::Title,
        _ => false,
    }
}

/// The title that the document gives itself: the trimmed text of the first
/// `title` element, in document order, that has any text. Below a `title`
/// element no other is looked for.
pub open spec fn document_title(t: Tree) -> Option<Seq<char>>
    decreases t, 0nat,
{
    if is_title(t) {
        if text_of(t).len() > 0 {
            Some(trimmed(text_of(t)))
        } else {
            None
        }
    } else {
        title_among(t.children, 0)
    }
}

/// The first title that one of the trees `ts[i..]` gives.
pub open spec fn title_among(ts: Seq<Tree>, i: int) -> Option<Seq<char>>
    decreases ts, ts.len() - i,
{
    if !(0 <= i < ts.len()) {
        None
    } else {
        match document_title(ts[i]) {
            Some(title) => Some(title),
            None => title_among(ts, i + 1),
        }
    }
}

/// The state in which the conversion of the document `doc` with `config`
/// ends: the walk over the document from the start, and then, where metadata
/// is included and the walk found no title, the document's own title.
pub open spec fn converted(doc: Tree, config: ConvertConfig) -> Fmt {
    let walked = Fmt::new(config).process_node(doc);
    if config.include_metadata {
        Fmt { metadata: walked.metadata.with_document_title(document_title(doc)), ..walked }
    } else {
        walked
    }
}

/// Whether `result` is the conversion of the document `doc` with `config`.
pub open spec fn is_conversion(
    result: HtmlConversionResult,
    doc: Tree,
    config: ConvertConfig,
) -> bool {
    &&& result.markdown@ == converted(doc, config).markdown()
    &&& result.links.deep_view() == converted(doc, config).links
}

/// Appends the text below `node` to `buffer`.
pub fn extract_text(node: &DomNode, buffer: &mut Vec<char>)
    ensures
        final(buffer)@ == old(buffer)@ + text_of(node@),
    decreases node,
{
    proof {
        lemma_node_view(*node);
    }
    match &node.data {
        DomData::Text { contents } => {
            push_str(buffer, contents.as_str());
        },
        DomData::Element { name, attrs } => {
            let ghost ts = node@.children;
            let mut i: usize = 0;
            while i < node.children.len()
                invariant
                    i <= node.children.len(),
                    ts == node@.children,
                    ts.len() == node.children@.len(),
                    forall|k: int|
                        0 <= k < node.children@.len() ==> #[trigger] ts[k] == node.children@[k]@,
                    buffer@ + text_among(ts, i as int) == old(buffer)@ + text_among(ts, 0),
                decreases node.children.len() - i,
            {
                let ghost before = buffer@;
                let ghost rest = text_among(ts, i as int);
                extract_text(&node.children[i], buffer);
                i += 1;
                assert(buffer@ + text_among(ts, i as int) == before + rest);
            }
            assert(buffer@ + Seq::<char>::empty() == buffer@);
        },
        _ => {
            assert(buffer@ == old(buffer)@ + Seq::<char>::empty());
        },
    }
}

/// The title that the document below `node` gives itself.
pub fn title_of(node: &DomNode) -> (title: Option<Vec<char>>)
    ensures
        title.deep_view() == document_title(node@),
    decreases node,
{
    proof {
        lemma_node_view(*node);
    }
    let titled = match &node.data {
        DomData::Element { name, attrs } => classify(name.as_str()) == ElementKind::Title,
        _ => false,
    };
    if titled {
        let mut text: Vec<char> = Vec::new();
        extract_text(node, &mut text);
        assert(text@ == text_of(node@));
        if text.len() > 0 {
            let title = trim(&text);
            proof {
                lemma_chars_deep_view(title);
            }
            return Some(title);
        }
        return None;
    }
    let ghost ts = node@.children;
    let mut i: usize = 0;
    while i < node.children.len()
        invariant
            i <= node.children.len(),
            ts == node@.children,
            ts.len() == node.children@.len(),
            forall|k: int| 0 <= k < node.children@.len() ==> #[trigger] ts[k] == node.children@[k]@,
            title_among(ts, i as int) == document_title(node@),
        decreases node.children.len() - i,
    {
        let found = title_of(&node.children[i]);
        assert(found.deep_view() == document_title(ts[i as int]));
        match found {
            Some(title) => {
                assert(title_among(ts, i as int) == Some(title.deep_view()));
                return Some(title);
            },
            None => {},
        }
        i += 1;
    }
    None
}

/// Gives `metadata` the title that the document below `node` gives itself,
/// unless a title is known already.
pub fn find_title_tag(node: &DomNode, metadata: &mut MetadataHandler)
    ensures
        final(metadata)@ == old(metadata)@.with_document_title(document_title(node@)),
        old(metadata)@.wf() ==> final(metadata)@.wf(),
{
    let title = match title_of(node) {
        Some(chars) => {
            proof {
                lemma_chars_deep_view(chars);
            }
            Some(to_string(&chars))
        },
        None => None,
    };
    metadata.record_document_title(title);
}

/// Converts the document `doc` to Markdown.
pub fn convert_document(doc: &DomNode, config: ConvertConfig) -> (result: HtmlConversionResult)
    ensures
        is_conversion(result, doc@, config),
{
    let mut formatter = MarkdownFormatter::new(config);
    formatter.process_node(doc);
    if config.include_metadata {
        find_title_tag(doc, &mut formatter.metadata);
    }
    formatter.result()
}

/// Converts the HTML text `html` to Markdown.
pub fn html_to_markdown(html: &str, config: ConvertConfig) -> (result: HtmlConversionResult)
    requires
        parsed_document(html@) is Some,
    ensures
        is_conversion(result, parsed_document(html@)->0, config),
{
    match parse(html) {
        Some(doc) => convert_document(&doc, config),
        None => unreached(),
    }
}

/// Converts the HTML text `html` to Markdown where the parser can read it,
/// and gives `None` where it cannot.
pub fn try_html_to_markdown(html: &str, config: ConvertConfig) -> (result: Option<
    HtmlConversionResult,
>)
    ensures
        result is Some <==> parsed_document(html@) is Some,
        result matches Some(r) ==> is_conversion(r, parsed_document(html@)->0, config),
{
    match parse(html) {
        Some(_) => Some(html_to_markdown(html, config)),
        None => None,
    }
}

} // verus!
