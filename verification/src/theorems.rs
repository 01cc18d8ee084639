//! What holds of every conversion: theorems about the walk of the formatter.

use crate::config::{ConvertConfig, HtmlConversionResult};
use crate::dom::{first_attr, last_attr, parsed_document, Tree, TreeData};
use crate::element::{element_kind, style_marker, ElementKind};
use crate::markdown::{is_conversion, is_list_item, is_pruned, BlockType, Fmt, ListType};
use crate::text::{
    all_white, collapsed, has_long_break, is_one_line, is_white, lemma_limit_breaks,
    lemma_part_has_no_long_break, lemma_quoted_lines, lemma_quoted_plain, lemma_trimmed,
    limit_breaks, line_starts_at, repeated, stands_at, trimmed,
};
use vstd::prelude::*;

verus! {

/// The targets of the links that a conversion with `config` meets in the tree
/// `t`, in document order: the targets of the anchors that have one, each
/// after those of the anchors inside it. Pruned nodes hold none, nor do
/// images, anchors without a target, or `meta` elements that are read as
/// metadata; without links included there are none at all.
pub open spec fn links_in(config: ConvertConfig, t: Tree) -> Seq<Seq<char>>
    decreases t, 0nat,
{
    if is_pruned(config, t) {
        Seq::empty()
    } else {
        match t.data {
            TreeData::Element { name, attrs } => match element_kind(name) {
                ElementKind::Anchor => if !config.include_links {
                    links_among(config, t.children, 0)
                } else {
                    match first_attr(attrs, "href"@) {
                        Some(href) => links_among(config, t.children, 0).push(href),
                        None => Seq::empty(),
                    }
                },
                ElementKind::Image => Seq::empty(),
                ElementKind::Meta => if config.include_metadata {
                    Seq::empty()
                } else {
                    links_among(config, t.children, 0)
                },
                _ => links_among(config, t.children, 0),
            },
            TreeData::Text { contents } => Seq::empty(),
            _ => links_among(config, t.children, 0),
        }
    }
}

/// The targets of the links in the trees `ts[i..]`, in document order.
pub open spec fn links_among(config: ConvertConfig, ts: Seq<Tree>, i: int) -> Seq<Seq<char>>
    decreases ts, ts.len() - i,
{
    if !(0 <= i < ts.len()) {
        Seq::empty()
    } else {
        links_in(config, ts[i]) + links_among(config, ts, i + 1)
    }
}

/// The walk over a tree leaves the settings alone and adds to the links the
/// targets that the tree holds, in document order.
#[verifier::rlimit(60)]
pub proof fn lemma_walk_collects_links(st: Fmt, t: Tree)
    ensures
        st.process_node(t).config == st.config,
        st.process_node(t).links == st.links + links_in(st.config, t),
    decreases t, 0nat,
{
    let ts = t.children;
    let none = Seq::<Seq<char>>::empty();
    assert(st.links + none == st.links);
    if !st.skips(t) {
        match t.data {
            TreeData::Element { name, attrs } => match element_kind(name) {
                ElementKind::Heading(level) => {
                    if st.config.preserve_headings && level <= st.config.max_heading_level {
                        lemma_children_collect_links(st.heading_open(level), ts, 0);
                    } else {
                        lemma_children_collect_links(st, ts, 0);
                    }
                },
                ElementKind::Paragraph => {
                    lemma_children_collect_links(st.paragraph_open(), ts, 0);
                },
                ElementKind::Pre => {
                    lemma_children_collect_links(st.pre_open(attrs), ts, 0);
                },
                ElementKind::Blockquote => {
                    lemma_children_collect_links(st.quote_open(), ts, 0);
                },
                ElementKind::Anchor => {
                    lemma_children_collect_links(st, ts, 0);
                    lemma_children_collect_links(st.opened_line(), ts, 0);
                    if st.config.include_links {
                        match first_attr(attrs, "href"@) {
                            Some(href) => {
                                assert((st.links + links_among(st.config, ts, 0)).push(href)
                                    == st.links + links_among(st.config, ts, 0).push(href));
                            },
                            None => {},
                        }
                    }
                },
                ElementKind::Image => {},
                ElementKind::Meta => {
                    lemma_children_collect_links(st, ts, 0);
                },
                ElementKind::Code => {
                    lemma_children_collect_links(st.code_open(), ts, 0);
                },
                ElementKind::Table => {
                    lemma_children_collect_links(st.table_open(), ts, 0);
                },
                ElementKind::TableRow => {
                    if st.in_table {
                        lemma_children_collect_links(st.row_open(), ts, 0);
                    } else {
                        lemma_children_collect_links(st.isolate(), ts, 0);
                    }
                },
                ElementKind::TableCell => {
                    if st.in_table {
                        lemma_children_collect_links(st.cell_open(), ts, 0);
                    } else {
                        lemma_children_collect_links(st.isolate(), ts, 0);
                    }
                },
                ElementKind::UnorderedList => {
                    lemma_items_collect_links(
                        st.list_open(ListType::Unordered),
                        ts,
                        0,
                        ListType::Unordered,
                        0,
                    );
                },
                ElementKind::OrderedList => {
                    lemma_items_collect_links(
                        st.list_open(ListType::Ordered(1)),
                        ts,
                        0,
                        ListType::Ordered(1),
                        0,
                    );
                },
                ElementKind::Inline(style) => {
                    lemma_children_collect_links(st.write(style_marker(style)), ts, 0);
                },
                ElementKind::Container => {
                    lemma_children_collect_links(st.isolate(), ts, 0);
                },
                _ => {
                    lemma_children_collect_links(st, ts, 0);
                },
            },
            TreeData::Text { contents } => {},
            _ => {
                lemma_children_collect_links(st, ts, 0);
            },
        }
    }
}

/// The walk over the trees `ts[i..]` adds the targets that they hold.
pub proof fn lemma_children_collect_links(st: Fmt, ts: Seq<Tree>, i: int)
    ensures
        st.process_children(ts, i).config == st.config,
        st.process_children(ts, i).links == st.links + links_among(st.config, ts, i),
    decreases ts, ts.len() - i,
{
    if 0 <= i < ts.len() {
        lemma_walk_collects_links(st, ts[i]);
        lemma_children_collect_links(st.process_node(ts[i]), ts, i + 1);
        assert(st.links + links_in(st.config, ts[i]) + links_among(st.config, ts, i + 1)
            == st.links + (links_in(st.config, ts[i]) + links_among(st.config, ts, i + 1)));
    } else {
        assert(st.links + Seq::<Seq<char>>::empty() == st.links);
    }
}

/// The walk over the children `ts[i..]` of a list adds the targets that they
/// hold.
pub proof fn lemma_items_collect_links(
    st: Fmt,
    ts: Seq<Tree>,
    i: int,
    list_type: ListType,
    done: nat,
)
    ensures
        st.process_items(ts, i, list_type, done).config == st.config,
        st.process_items(ts, i, list_type, done).links == st.links + links_among(st.config, ts, i),
    decreases ts, ts.len() - i,
{
    if 0 <= i < ts.len() {
        if is_list_item(ts[i]) {
            let opened = st.item_open(list_type, done + 1);
            lemma_walk_collects_links(opened, ts[i]);
            lemma_items_collect_links(
                opened.process_node(ts[i]).add_newline(),
                ts,
                i + 1,
                list_type,
                done + 1,
            );
        } else {
            lemma_walk_collects_links(st, ts[i]);
            lemma_items_collect_links(st.process_node(ts[i]), ts, i + 1, list_type, done);
        }
        assert(st.links + links_in(st.config, ts[i]) + links_among(st.config, ts, i + 1)
            == st.links + (links_in(st.config, ts[i]) + links_among(st.config, ts, i + 1)));
    } else {
        assert(st.links + Seq::<Seq<char>>::empty() == st.links);
    }
}

/// The links of a conversion are the targets of the anchors of the document,
/// in the order in which the document holds them.
pub proof fn theorem_links_in_document_order(
    result: HtmlConversionResult,
    doc: Tree,
    config: ConvertConfig,
)
    requires
        is_conversion(result, doc, config),
    ensures
        result.links.deep_view() == links_in(config, doc),
        !config.include_links ==> result.links.deep_view().len() == 0,
{
    lemma_walk_collects_links(Fmt::new(config), doc);
    assert(Seq::<Seq<char>>::empty() + links_in(config, doc) == links_in(config, doc));
    if !config.include_links {
        lemma_no_links_without_inclusion(config, doc);
    }
}

/// Without links included, no tree holds a link target.
pub proof fn lemma_no_links_without_inclusion(config: ConvertConfig, t: Tree)
    requires
        !config.include_links,
    ensures
        links_in(config, t).len() == 0,
    decreases t, 0nat,
{
    lemma_no_links_among(config, t.children, 0);
}

/// Without links included, no tree of `ts[i..]` holds a link target.
pub proof fn lemma_no_links_among(config: ConvertConfig, ts: Seq<Tree>, i: int)
    requires
        !config.include_links,
    ensures
        links_among(config, ts, i).len() == 0,
    decreases ts, ts.len() - i,
{
    if 0 <= i < ts.len() {
        lemma_no_links_without_inclusion(config, ts[i]);
        lemma_no_links_among(config, ts, i + 1);
    }
}

/// Two conversions of one HTML text with one configuration give the same
/// Markdown, character for character, and the same links.
pub proof fn theorem_conversion_is_determined(
    html: Seq<char>,
    config: ConvertConfig,
    first: HtmlConversionResult,
    second: HtmlConversionResult,
)
    requires
        parsed_document(html) is Some,
        is_conversion(first, parsed_document(html)->0, config),
        is_conversion(second, parsed_document(html)->0, config),
    ensures
        first.markdown@ == second.markdown@,
        first.links.deep_view() == second.links.deep_view(),
{
}

/// The walk over a tree closes what it opens: the open blocks, the open
/// lists and the quote markers are afterwards what they were. And it keeps
/// the tags of the metadata distinct.
#[verifier::rlimit(60)]
pub proof fn theorem_walk_is_balanced(st: Fmt, t: Tree)
    ensures
        st.process_node(t).block_stack == st.block_stack,
        st.process_node(t).list_type_stack == st.list_type_stack,
        st.process_node(t).line_prefix == st.line_prefix,
        st.metadata.wf() ==> st.process_node(t).metadata.wf(),
    decreases t, 0nat,
{
    let ts = t.children;
    if !st.skips(t) {
        match t.data {
            TreeData::Element { name, attrs } => match element_kind(name) {
                ElementKind::Heading(level) => {
                    if st.config.preserve_headings && level <= st.config.max_heading_level {
                        lemma_children_are_balanced(st.heading_open(level), ts, 0);
                        assert(st.block_stack.push(BlockType::Header(level)).drop_last()
                            == st.block_stack);
                    } else {
                        lemma_children_are_balanced(st, ts, 0);
                    }
                },
                ElementKind::Paragraph => {
                    lemma_children_are_balanced(st.paragraph_open(), ts, 0);
                    assert(st.block_stack.push(BlockType::Paragraph).drop_last() == st.block_stack);
                },
                ElementKind::Pre => {
                    lemma_children_are_balanced(st.pre_open(attrs), ts, 0);
                    let one = st.block_stack.push(BlockType::Pre);
                    assert(one.push(BlockType::CodeBlock).drop_last() == one);
                    assert(one.drop_last() == st.block_stack);
                },
                ElementKind::Blockquote => {
                    lemma_children_are_balanced(st.quote_open(), ts, 0);
                    assert(st.block_stack.push(BlockType::Quote).drop_last() == st.block_stack);
                },
                ElementKind::Anchor => {
                    lemma_children_are_balanced(st, ts, 0);
                    lemma_children_are_balanced(st.opened_line(), ts, 0);
                },
                ElementKind::Image => {},
                ElementKind::Meta => {
                    lemma_children_are_balanced(st, ts, 0);
                    if st.metadata.wf() {
                        st.metadata.lemma_steps_keep_wf(
                            last_attr(attrs, "property"@),
                            last_attr(attrs, "name"@),
                            last_attr(attrs, "content"@),
                        );
                    }
                },
                ElementKind::Code => {
                    lemma_children_are_balanced(st.code_open(), ts, 0);
                },
                ElementKind::Table => {
                    lemma_children_are_balanced(st.table_open(), ts, 0);
                },
                ElementKind::TableRow => {
                    if st.in_table {
                        lemma_children_are_balanced(st.row_open(), ts, 0);
                    } else {
                        lemma_children_are_balanced(st.isolate(), ts, 0);
                    }
                },
                ElementKind::TableCell => {
                    if st.in_table {
                        lemma_children_are_balanced(st.cell_open(), ts, 0);
                    } else {
                        lemma_children_are_balanced(st.isolate(), ts, 0);
                    }
                },
                ElementKind::UnorderedList => {
                    let lt = ListType::Unordered;
                    lemma_items_are_balanced(st.list_open(lt), ts, 0, lt, 0);
                    assert(st.block_stack.push(BlockType::List(lt)).drop_last() == st.block_stack);
                    assert(st.list_type_stack.push(lt).drop_last() == st.list_type_stack);
                },
                ElementKind::OrderedList => {
                    let lt = ListType::Ordered(1);
                    lemma_items_are_balanced(st.list_open(lt), ts, 0, lt, 0);
                    assert(st.block_stack.push(BlockType::List(lt)).drop_last() == st.block_stack);
                    assert(st.list_type_stack.push(lt).drop_last() == st.list_type_stack);
                },
                ElementKind::Inline(style) => {
                    lemma_children_are_balanced(st.write(style_marker(style)), ts, 0);
                },
                ElementKind::Container => {
                    lemma_children_are_balanced(st.isolate(), ts, 0);
                },
                _ => {
                    lemma_children_are_balanced(st, ts, 0);
                },
            },
            TreeData::Text { contents } => {},
            _ => {
                lemma_children_are_balanced(st, ts, 0);
            },
        }
    }
}

/// The walk over the trees `ts[i..]` closes what it opens.
pub proof fn lemma_children_are_balanced(st: Fmt, ts: Seq<Tree>, i: int)
    ensures
        st.process_children(ts, i).block_stack == st.block_stack,
        st.process_children(ts, i).list_type_stack == st.list_type_stack,
        st.process_children(ts, i).line_prefix == st.line_prefix,
        st.metadata.wf() ==> st.process_children(ts, i).metadata.wf(),
    decreases ts, ts.len() - i,
{
    if 0 <= i < ts.len() {
        theorem_walk_is_balanced(st, ts[i]);
        lemma_children_are_balanced(st.process_node(ts[i]), ts, i + 1);
    }
}

/// The walk over the children `ts[i..]` of a list closes what it opens.
pub proof fn lemma_items_are_balanced(
    st: Fmt,
    ts: Seq<Tree>,
    i: int,
    list_type: ListType,
    done: nat,
)
    ensures
        st.process_items(ts, i, list_type, done).block_stack == st.block_stack,
        st.process_items(ts, i, list_type, done).list_type_stack == st.list_type_stack,
        st.process_items(ts, i, list_type, done).line_prefix == st.line_prefix,
        st.metadata.wf() ==> st.process_items(ts, i, list_type, done).metadata.wf(),
    decreases ts, ts.len() - i,
{
    if 0 <= i < ts.len() {
        if is_list_item(ts[i]) {
            let opened = st.item_open(list_type, done + 1);
            theorem_walk_is_balanced(opened, ts[i]);
            lemma_items_are_balanced(
                opened.process_node(ts[i]).add_newline(),
                ts,
                i + 1,
                list_type,
                done + 1,
            );
        } else {
            theorem_walk_is_balanced(st, ts[i]);
            lemma_items_are_balanced(st.process_node(ts[i]), ts, i + 1, list_type, done);
        }
    }
}

/// Whether the tree is a heading element of `level`.
pub open spec fn is_heading(t: Tree, level: u8) -> bool {
    match t.data {
        TreeData::Element { name, attrs } => element_kind(name) == ElementKind::Heading(level),
        _ => false,
    }
}

/// A heading is written with as many hash signs as its level, and only where
/// headings are preserved and the level is within the limit; any other
/// heading is passed through: only what is below it is written, as flowing
/// text. So no heading that the formatter writes has more hash signs than the
/// limit allows.
pub proof fn theorem_heading_levels(st: Fmt, t: Tree, level: u8)
    requires
        is_heading(t, level),
    ensures
        1 <= level <= 6,
        st.config.preserve_headings && level <= st.config.max_heading_level ==> st.process_node(t)
            == st.push_block(BlockType::Header(level)).add_block_spacing(
            BlockType::Header(level),
        ).add_double_newline().write(repeated('#', level as nat) + seq![' ']).process_children(
            t.children,
            0,
        ).add_double_newline().pop_block(),
        !(st.config.preserve_headings && level <= st.config.max_heading_level) ==> st.process_node(
            t,
        ) == st.process_children(t.children, 0),
{
}

/// Whether the tree is a text node whose text is white space alone.
pub open spec fn is_blank_text(t: Tree) -> bool {
    match t.data {
        TreeData::Text { contents } => all_white(contents),
        _ => false,
    }
}

/// Where white space is cleaned and no code is open, text nodes of white
/// space alone contribute nothing: after two of them in a row the state is
/// what it was, so the content has gained no space at all.
pub proof fn theorem_blank_text_adds_nothing(st: Fmt, first: Tree, second: Tree)
    requires
        st.config.clean_whitespace,
        !st.in_code_block,
        is_blank_text(first),
        is_blank_text(second),
    ensures
        st.process_node(first) == st,
        st.process_node(first).process_node(second) == st,
{
    lemma_blank_text(st, first);
    lemma_blank_text(st, second);
}

/// Where white space is cleaned and no code is open, a text node of white space
/// alone leaves the state as it is.
proof fn lemma_blank_text(st: Fmt, t: Tree)
    requires
        st.config.clean_whitespace,
        !st.in_code_block,
        is_blank_text(t),
    ensures
        st.process_node(t) == st,
{
    match t.data {
        TreeData::Text { contents } => {
            lemma_trimmed(contents);
            assert(trimmed(contents) == Seq::<char>::empty());
            assert(collapsed(Seq::<char>::empty(), st.config.cleaning_rules.preserve_line_breaks)
                == Seq::<char>::empty());
            assert(st.clean_text(contents) == Seq::<char>::empty());
            assert(st.content + Seq::<char>::empty() == st.content);
            assert(st.current_cell + Seq::<char>::empty() == st.current_cell);
        },
        _ => {},
    }
}

/// The Markdown of a walk neither starts nor ends with white space, and,
/// unless line breaks are preserved, it holds no three line breaks in a row:
/// no more than one blank line stands between two lines.
pub proof fn theorem_markdown_is_tidy(st: Fmt)
    ensures
        st.markdown().len() > 0 ==> !is_white(st.markdown().first()) && !is_white(
            st.markdown().last(),
        ),
        !st.config.cleaning_rules.preserve_line_breaks ==> !has_long_break(st.markdown()),
{
    let head = if st.config.include_metadata {
        st.metadata.formatted()
    } else {
        Seq::empty()
    };
    let whole = head + trimmed(st.content);
    if !st.config.cleaning_rules.preserve_line_breaks {
        let limited = limit_breaks(whole);
        lemma_trimmed(limited);
        lemma_limit_breaks(whole);
        lemma_part_has_no_long_break(
            limited,
            crate::text::trim_start_index(limited),
            crate::text::trim_end_index(limited),
        );
    } else {
        lemma_trimmed(whole);
    }
}

/// Inside quotes the markers stand on every line: whatever is written, the
/// content so far stays, and every line that starts in what is written, and
/// is not empty, starts with the markers of the open quotes. A quote that
/// opens adds its marker to them, and it holds no line break.
pub proof fn theorem_quotes_mark_every_line(st: Fmt, s: Seq<char>)
    requires
        is_one_line(st.line_prefix),
        !st.in_table,
    ensures
        st.content.is_prefix_of(st.write(s).content),
        forall|k: int|
            st.content.len() <= k && #[trigger] line_starts_at(st.write(s).content, k)
                ==> stands_at(st.write(s).content, k, st.line_prefix),
        st.quote_open().line_prefix == st.line_prefix + seq!['>', ' '],
        is_one_line(st.quote_open().line_prefix),
{
    lemma_quoted_lines(st.content, st.line_prefix, s, 0);
}

/// Outside any quote, what is written stands at the end of the content, or
/// of the open cell, as it is.
pub proof fn theorem_plain_writing_appends(st: Fmt, s: Seq<char>)
    requires
        st.line_prefix.len() == 0,
    ensures
        st.write(s).target() == st.target() + s,
{
    assert(st.line_prefix == Seq::<char>::empty());
    lemma_quoted_plain(st.content, s, 0);
    assert(s.subrange(0, s.len() as int) == s);
    assert(st.content + Seq::<char>::empty() == st.content);
}

} // verus!
