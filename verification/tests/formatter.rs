use mdcrawl::config::{CleaningRules, ConvertConfig};
use mdcrawl::dom::{DomAttribute, DomData, DomNode};
use mdcrawl::markdown::{
    extract_text, find_title_tag, is_list_item_node, title_of, BlockType, ListType,
    MarkdownFormatter,
};
use mdcrawl::metadata::MetadataHandler;

fn config(clean_whitespace: bool, preserve_line_breaks: bool) -> ConvertConfig {
    ConvertConfig {
        include_links: true,
        clean_whitespace,
        cleaning_rules: CleaningRules {
            remove_scripts: true,
            remove_styles: false,
            remove_comments: true,
            preserve_line_breaks,
        },
        preserve_headings: true,
        include_metadata: false,
        max_heading_level: 6,
    }
}

fn formatter(content: &str) -> MarkdownFormatter {
    let mut f = MarkdownFormatter::new(config(true, false));
    f.content = content.chars().collect();
    f
}

fn content(f: &MarkdownFormatter) -> String {
    f.content.iter().collect()
}

fn text(contents: &str) -> DomNode {
    DomNode { data: DomData::Text { contents: contents.to_string() }, children: vec![] }
}

fn element(name: &str, attrs: &[(&str, &str)], children: Vec<DomNode>) -> DomNode {
    DomNode {
        data: DomData::Element {
            name: name.to_string(),
            attrs: attrs
                .iter()
                .map(|(n, v)| DomAttribute { name: n.to_string(), value: v.to_string() })
                .collect(),
        },
        children,
    }
}

fn plain(data: DomData, children: Vec<DomNode>) -> DomNode {
    DomNode { data, children }
}

#[test]
fn new_formatter_is_empty() {
    let f = MarkdownFormatter::new(config(true, false));
    assert!(f.content.is_empty());
    assert!(f.links.is_empty());
    assert!(f.block_stack.is_empty() && f.list_type_stack.is_empty());
    assert_eq!(f.last_block_type, None);
    assert!(!f.last_was_block && !f.in_table && !f.in_code_block);
    assert!(f.table_rows.is_empty() && f.current_row.is_empty() && f.current_cell.is_empty());
    assert!(f.line_prefix.is_empty());
    assert!(f.metadata.title.is_none() && f.metadata.tags.is_empty());
    assert_eq!(f.result().markdown, "");
}

#[test]
fn add_newline_ends_nonempty_content_with_one_line_break() {
    let mut f = formatter("a");
    f.add_newline();
    assert_eq!(content(&f), "a\n");
    f.add_newline();
    assert_eq!(content(&f), "a\n");
    let mut empty = formatter("");
    empty.add_newline();
    assert_eq!(content(&empty), "");
}

#[test]
fn add_double_newline_ends_content_with_exactly_two_line_breaks() {
    for start in ["a", "a\n", "a\n\n", "a\n\n\n\n"] {
        let mut f = formatter(start);
        f.add_double_newline();
        assert_eq!(content(&f), "a\n\n");
    }
    let mut empty = formatter("");
    empty.add_double_newline();
    assert_eq!(content(&empty), "\n\n");
}

#[test]
fn spacing_before_a_heading_is_a_blank_line() {
    let mut f = formatter("a\n");
    f.add_block_spacing(BlockType::Header(2));
    assert_eq!(content(&f), "a\n\n");
    assert_eq!(f.last_block_type, Some(BlockType::Header(2)));
    assert!(f.last_was_block);
    f.add_block_spacing(BlockType::Header(3));
    assert_eq!(content(&f), "a\n\n");
    let mut long = formatter("a\n\n\n");
    long.add_block_spacing(BlockType::Header(1));
    assert_eq!(content(&long), "a\n\n\n");
}

#[test]
fn spacing_before_a_paragraph_depends_on_blocks_before() {
    let mut f = formatter("a");
    f.add_block_spacing(BlockType::Paragraph);
    assert_eq!(content(&f), "a\n\n");
    f.content.push('b');
    f.add_block_spacing(BlockType::Paragraph);
    assert_eq!(content(&f), "a\n\nb");
    assert_eq!(f.last_block_type, Some(BlockType::Paragraph));
}

#[test]
fn spacing_before_a_list_depends_on_the_last_block() {
    let mut f = formatter("a");
    f.add_block_spacing(BlockType::List(ListType::Unordered));
    assert_eq!(content(&f), "a\n");
    f.content.push('b');
    f.add_block_spacing(BlockType::List(ListType::Unordered));
    assert_eq!(content(&f), "a\nb");
    f.add_block_spacing(BlockType::List(ListType::Ordered(1)));
    assert_eq!(content(&f), "a\nb\n");
    assert_eq!(f.last_block_type, Some(BlockType::List(ListType::Ordered(1))));
}

#[test]
fn spacing_before_code_is_a_blank_line() {
    for block in [BlockType::CodeBlock, BlockType::Pre] {
        let mut f = formatter("a\n\n\n");
        f.add_block_spacing(block);
        assert_eq!(content(&f), "a\n\n");
        assert_eq!(f.last_block_type, Some(block));
    }
}

#[test]
fn spacing_before_other_blocks_is_a_line_break() {
    for block in [
        BlockType::Quote,
        BlockType::Table,
        BlockType::Div,
        BlockType::Article,
        BlockType::Section,
        BlockType::TableRow,
        BlockType::TableCell,
        BlockType::TableHeader,
    ] {
        let mut f = formatter("a");
        f.add_block_spacing(block);
        assert_eq!(content(&f), "a\n");
        f.add_block_spacing(block);
        assert_eq!(content(&f), "a\n");
        let mut empty = formatter("");
        empty.add_block_spacing(block);
        assert_eq!(content(&empty), "");
        assert!(empty.last_was_block);
    }
}

#[test]
fn clean_text_trims_and_collapses() {
    let f = formatter("");
    let clean = |s: &str| -> String { f.clean_text(s).iter().collect() };
    assert_eq!(clean("  a \n\t b  "), "a b");
    assert_eq!(clean(" \n "), "");
    assert_eq!(clean("word"), "word");
}

#[test]
fn clean_text_leaves_code_and_uncleaned_text_alone() {
    let mut code = formatter("");
    code.in_code_block = true;
    assert_eq!(code.clean_text("  a \n b ").iter().collect::<String>(), "  a \n b ");
    let raw = MarkdownFormatter::new(config(false, false));
    assert_eq!(raw.clean_text("  a  b ").iter().collect::<String>(), "  a  b ");
    let breaks = MarkdownFormatter::new(config(true, true));
    assert_eq!(breaks.clean_text(" a\n\nb ").iter().collect::<String>(), "a\n b");
}

#[test]
fn processing_instructions_are_always_pruned() {
    let f = MarkdownFormatter::new(ConvertConfig::default());
    let pi = plain(DomData::ProcessingInstruction, vec![text("x")]);
    assert!(f.should_skip_node(&pi));
    let comment = plain(DomData::Comment, vec![]);
    assert!(!f.should_skip_node(&comment));
    let g = formatter("");
    assert!(g.should_skip_node(&comment));
    assert!(g.should_skip_node(&element("script", &[], vec![])));
    assert!(!g.should_skip_node(&element("style", &[], vec![])));
    assert!(!g.should_skip_node(&text("x")));
}

#[test]
fn text_in_a_table_goes_to_the_cell() {
    let mut f = formatter("");
    let table = element(
        "table",
        &[],
        vec![element(
            "tr",
            &[],
            vec![
                element("td", &[], vec![text(" a  b ")]),
                element("td", &[], vec![element("b", &[], vec![text("c")])]),
                element("td", &[], vec![]),
            ],
        )],
    );
    f.process_node(&table);
    assert!(!f.in_table);
    assert_eq!(f.table_rows.len(), 1);
    let row: Vec<String> = f.table_rows[0].iter().map(|c| c.iter().collect()).collect();
    assert_eq!(row, vec!["a b", "**c**", ""]);
    assert_eq!(content(&f), "\n\n| a b | **c** |  |\n| --- | ----- |  |\n");
}

#[test]
fn links_and_code_in_a_cell_stay_in_the_cell() {
    let mut f = formatter("x");
    let cell = element(
        "td",
        &[],
        vec![
            text("see "),
            element("a", &[("href", "/t")], vec![text("this")]),
            element("code", &[], vec![text(" y ")]),
            element("a", &[("href", "/u")], vec![]),
        ],
    );
    f.process_node(&element("table", &[], vec![element("tr", &[], vec![cell])]));
    assert_eq!(content(&f), "x\n\n| see[this](/t)` y `</u> |\n| ---------------------- |\n");
    assert_eq!(f.links, vec!["/t".to_string(), "/u".to_string()]);
}

#[test]
fn rows_and_cells_outside_a_table_are_set_apart() {
    let mut f = formatter("x");
    f.process_node(&element("tr", &[], vec![element("td", &[], vec![text("a")])]));
    assert_eq!(content(&f), "x\n\na\n\n");
    assert!(f.table_rows.is_empty());
}

#[test]
fn link_without_target_is_dropped_with_its_text() {
    let mut f = formatter("x");
    f.process_node(&element("a", &[("name", "n")], vec![text("gone")]));
    assert_eq!(content(&f), "x");
    assert!(f.links.is_empty());
}

#[test]
fn link_survives_content_that_shrinks_below_its_start() {
    let mut f = MarkdownFormatter::new(config(false, false));
    f.content = "abc\n\n\n".chars().collect();
    f.process_node(&element("a", &[("href", "/t")], vec![element("div", &[], vec![])]));
    assert_eq!(content(&f), "abc\n\n</t>");
    assert_eq!(f.links, vec!["/t".to_string()]);
}

#[test]
fn first_href_counts() {
    let mut f = formatter("");
    f.process_node(&element("a", &[("href", "/1"), ("href", "/2")], vec![text("t")]));
    assert_eq!(content(&f), "[t](/1)");
    assert_eq!(f.links, vec!["/1".to_string()]);
}

#[test]
fn nested_anchors_are_listed_inner_first() {
    let mut f = formatter("");
    let inner = element("a", &[("href", "/in")], vec![text("i")]);
    f.process_node(&element("a", &[("href", "/out")], vec![text("o"), inner]));
    assert_eq!(f.links, vec!["/in".to_string(), "/out".to_string()]);
    assert_eq!(content(&f), "[o[i](/in)](/out)");
}

#[test]
fn writing_inside_a_quote_marks_the_lines() {
    let mut f = formatter("x\n");
    f.line_prefix = "> ".chars().collect();
    f.write_chars(&"a\n\nb\nc".chars().collect());
    assert_eq!(content(&f), "x\n> a\n\n> b\n> c");
    f.write_chars(&"d\n".chars().collect());
    f.write_chars(&Vec::new());
    assert_eq!(content(&f), "x\n> a\n\n> b\n> cd\n");
    assert!(!f.last_was_block);
}

#[test]
fn paragraph_after_an_empty_quote_is_set_apart() {
    let mut f = formatter("x");
    f.process_node(&element("blockquote", &[], vec![]));
    f.process_node(&element("p", &[], vec![text("y")]));
    assert_eq!(content(&f), "x\n\ny\n\n");
}

#[test]
fn written_text_ends_the_opening_of_a_block() {
    let mut f = formatter("");
    f.add_block_spacing(BlockType::Paragraph);
    assert!(f.last_was_block);
    f.process_node(&text("  "));
    assert!(f.last_was_block);
    f.process_node(&text("a"));
    assert!(!f.last_was_block);
    f.add_block_spacing(BlockType::Paragraph);
    assert_eq!(content(&f), "\n\na\n\n");
}

#[test]
fn walk_closes_what_it_opens() {
    let mut f = formatter("");
    let tree = element(
        "blockquote",
        &[],
        vec![element(
            "ol",
            &[],
            vec![element("li", &[], vec![element("pre", &[], vec![text("x")])])],
        )],
    );
    f.process_node(&tree);
    assert!(f.block_stack.is_empty());
    assert!(f.list_type_stack.is_empty());
    assert!(f.line_prefix.is_empty());
}

#[test]
fn ordered_list_counts_past_255() {
    let items: Vec<DomNode> = (0..300).map(|_| element("li", &[], vec![text("x")])).collect();
    let mut f = formatter("");
    f.process_node(&element("ol", &[], items));
    let out = content(&f);
    assert!(out.starts_with("1. x\n2. x\n"));
    assert!(out.contains("\n255. x\n256. x\n257. x\n"));
    assert!(out.ends_with("\n300. x\n"));
}

#[test]
fn nested_lists_are_indented_by_the_lists_around_them() {
    let inner = element("ol", &[], vec![element("li", &[], vec![text("deep")])]);
    let middle = element("ul", &[], vec![element("li", &[], vec![text("mid"), inner])]);
    let outer = element("ol", &[], vec![element("li", &[], vec![text("top"), middle])]);
    let mut f = formatter("");
    f.process_node(&outer);
    assert_eq!(content(&f), "1. top\n   * mid\n     1. deep\n");
}

#[test]
fn non_items_in_a_list_get_no_marker() {
    let list = element("ul", &[], vec![text("loose"), element("li", &[], vec![text("item")])]);
    let mut f = formatter("");
    f.process_node(&list);
    assert_eq!(content(&f), "loose\n* item\n");
    assert!(is_list_item_node(&element("li", &[], vec![])));
    assert!(!is_list_item_node(&element("ul", &[], vec![])));
    assert!(!is_list_item_node(&text("li")));
}

#[test]
fn meta_elements_are_read_only_with_metadata_included() {
    let meta = element("meta", &[("name", "author"), ("content", "Ann")], vec![]);
    let mut without = formatter("");
    without.process_node(&meta);
    assert_eq!(without.metadata.author, None);
    let mut c = config(true, false);
    c.include_metadata = true;
    let mut with = MarkdownFormatter::new(c);
    with.process_node(&meta);
    assert_eq!(with.metadata.author.as_deref(), Some("Ann"));
    let last = element(
        "meta",
        &[("name", "x"), ("content", "first"), ("name", "description"), ("content", "last")],
        vec![],
    );
    with.process_node(&last);
    assert_eq!(with.metadata.description.as_deref(), Some("last"));
    let both = element(
        "meta",
        &[("property", "og:unknown"), ("name", "author"), ("content", "Bob")],
        vec![],
    );
    with.process_node(&both);
    assert_eq!(with.metadata.author.as_deref(), Some("Ann"));
}

#[test]
fn result_puts_the_metadata_block_first() {
    let mut c = config(true, false);
    c.include_metadata = true;
    let mut f = MarkdownFormatter::new(c);
    f.metadata.title = Some("T".to_string());
    f.content = "\n\n body \n\n\n\nmore\n".chars().collect();
    let result = f.result();
    assert_eq!(result.markdown, "# T\n\n---\n---\n\nbody \n\nmore");
}

#[test]
fn title_is_the_first_title_element_with_text() {
    let doc = plain(
        DomData::Document,
        vec![element(
            "html",
            &[],
            vec![
                element("title", &[], vec![]),
                element(
                    "head",
                    &[],
                    vec![element("title", &[], vec![text("  The "), element("b", &[], vec![text("Title ")])])],
                ),
                element("title", &[], vec![text("Later")]),
            ],
        )],
    );
    assert_eq!(title_of(&doc).map(|t| t.iter().collect::<String>()), Some("The Title".to_string()));
    let mut metadata = MetadataHandler::new();
    find_title_tag(&doc, &mut metadata);
    assert_eq!(metadata.title.as_deref(), Some("The Title"));
    let none = plain(DomData::Document, vec![element("p", &[], vec![text("x")])]);
    assert!(title_of(&none).is_none());
}

#[test]
fn extract_text_reads_texts_below_elements_only() {
    let mut buffer: Vec<char> = vec!['>'];
    let tree = element(
        "p",
        &[],
        vec![
            text("a"),
            plain(DomData::Comment, vec![text("hidden")]),
            element("i", &[], vec![text("b"), text("c")]),
        ],
    );
    extract_text(&tree, &mut buffer);
    assert_eq!(buffer.iter().collect::<String>(), ">abc");
    let mut nothing: Vec<char> = Vec::new();
    extract_text(&plain(DomData::Document, vec![text("x")]), &mut nothing);
    assert!(nothing.is_empty());
}
