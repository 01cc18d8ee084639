use mdcrawl::config::{CleaningRules, ConvertConfig};
use mdcrawl::dom::{DomAttribute, DomData, DomNode};
use mdcrawl::markdown::{convert_document, html_to_markdown, try_html_to_markdown};

fn config() -> ConvertConfig {
    ConvertConfig {
        include_links: true,
        clean_whitespace: true,
        cleaning_rules: CleaningRules {
            remove_scripts: false,
            remove_styles: false,
            remove_comments: false,
            preserve_line_breaks: false,
        },
        preserve_headings: true,
        include_metadata: false,
        max_heading_level: 6,
    }
}

fn text(contents: &str) -> DomNode {
    DomNode { data: DomData::Text { contents: contents.to_string() }, children: vec![] }
}

fn element(name: &str, attrs: &[(&str, &str)], children: Vec<DomNode>) -> DomNode {
    DomNode {
        data: DomData::Element {
            name: name.to_string(),
            attrs: attrs
                .iter()
                .map(|(n, v)| DomAttribute { name: n.to_string(), value: v.to_string() })
                .collect(),
        },
        children,
    }
}

fn document(children: Vec<DomNode>) -> DomNode {
    DomNode { data: DomData::Document, children }
}

#[test]
fn heading_paragraph_and_link_with_cleaned_whitespace() {
    let result = html_to_markdown("<h1>Hi</h1><p>Hello <a href=\"/x\">there</a></p>", config());
    assert_eq!(result.markdown, "# Hi\n\nHello[there](/x)");
    assert_eq!(result.links, vec!["/x".to_string()]);
}

#[test]
fn heading_paragraph_and_link_with_whitespace_kept() {
    let mut c = config();
    c.clean_whitespace = false;
    let result = html_to_markdown("<h1>Hi</h1><p>Hello <a href=\"/x\">there</a></p>", c);
    assert_eq!(result.markdown, "# Hi\n\nHello [there](/x)");
    assert_eq!(result.links, vec!["/x".to_string()]);
}

#[test]
fn conversion_is_repeatable() {
    let html = "<h2>A</h2><p>b <b>c</b></p><ul><li>x</li><li>y</li></ul>";
    let first = html_to_markdown(html, config());
    let second = html_to_markdown(html, config());
    assert_eq!(first.markdown, second.markdown);
    assert_eq!(first.links, second.links);
}

#[test]
fn parsed_text_and_hand_built_tree_agree() {
    let parsed = try_html_to_markdown("<p>one</p><p>two</p>", config()).unwrap();
    let tree = document(vec![element(
        "html",
        &[],
        vec![
            element("head", &[], vec![]),
            element(
                "body",
                &[],
                vec![
                    element("p", &[], vec![text("one")]),
                    element("p", &[], vec![text("two")]),
                ],
            ),
        ],
    )]);
    let built = convert_document(&tree, config());
    assert_eq!(parsed.markdown, built.markdown);
    assert_eq!(built.markdown, "one\n\ntwo");
}

#[test]
fn links_come_in_document_order() {
    let html = "<p><a href=\"/a\">1</a> <a href=\"/b\">2</a></p><div><a href=\"/c\">3</a></div>";
    let result = html_to_markdown(html, config());
    assert_eq!(result.links, vec!["/a".to_string(), "/b".to_string(), "/c".to_string()]);
}

#[test]
fn links_are_left_out_when_not_included() {
    let mut c = config();
    c.include_links = false;
    let result = html_to_markdown("<p><a href=\"/a\">text</a></p>", c);
    assert_eq!(result.markdown, "text");
    assert!(result.links.is_empty());
}

#[test]
fn link_whose_text_is_its_target_is_bracketed() {
    let result = html_to_markdown("<a href=\"http://e.org/\">http://e.org/</a>", config());
    assert_eq!(result.markdown, "<http://e.org/>");
}

#[test]
fn heading_above_the_limit_is_plain_text() {
    let mut c = config();
    c.max_heading_level = 2;
    let result = html_to_markdown("<h2>Two</h2><h3>Three</h3>", c);
    assert_eq!(result.markdown, "## Two\n\nThree");
}

#[test]
fn headings_not_preserved_are_plain_text() {
    let mut c = config();
    c.preserve_headings = false;
    let result = html_to_markdown("<h1>One</h1>", c);
    assert_eq!(result.markdown, "One");
}

#[test]
fn table_rows_are_padded_to_the_widest_cell() {
    let html = "<table><tr><th>a</th><th>bb</th><th>c</th></tr><tr><td>dddd</td></tr></table>";
    let result = html_to_markdown(html, config());
    assert_eq!(
        result.markdown,
        "| a    | bb | c |\n| ---- | -- | - |\n| dddd |    |   |"
    );
}

#[test]
fn table_lines_have_the_same_number_of_cells() {
    let html = "<table><tr><td>1</td></tr><tr><td>1</td><td>2</td><td>3</td></tr><tr><td>1</td><td>2</td></tr></table>";
    let result = html_to_markdown(html, config());
    let counts: Vec<usize> =
        result.markdown.lines().map(|l| l.matches('|').count()).collect();
    assert_eq!(counts, vec![4, 4, 4, 4]);
}

#[test]
fn whitespace_only_text_nodes_add_nothing() {
    let tree = document(vec![
        text("a"),
        text("  \n "),
        element("span", &[], vec![]),
        text("\t  "),
        text("b"),
    ]);
    let result = convert_document(&tree, config());
    assert_eq!(result.markdown, "ab");
}

#[test]
fn runs_of_whitespace_collapse_to_one_space() {
    let result = html_to_markdown("<p>a  \n\t b</p>", config());
    assert_eq!(result.markdown, "a b");
}

#[test]
fn line_breaks_are_kept_when_preserved() {
    let mut c = config();
    c.cleaning_rules.preserve_line_breaks = true;
    let result = html_to_markdown("<p>a\n\nb</p>", c);
    assert_eq!(result.markdown, "a\n b");
}

#[test]
fn code_block_keeps_its_text_and_names_its_language() {
    let html = "<pre class=\"x language-rust y\">fn  main() {\n}</pre>";
    let result = html_to_markdown(html, config());
    assert_eq!(result.markdown, "```rust\nfn  main() {\n}\n```");
}

#[test]
fn inline_styles_use_their_markers() {
    let html = "<p><strong>a</strong><em>b</em><code>c</code><mark>d</mark><del>e</del><ins>f</ins></p>";
    let result = html_to_markdown(html, config());
    assert_eq!(result.markdown, "**a***b*`c`==d==~~e~~__f__");
}

#[test]
fn blockquote_gets_its_marker_and_nested_ones_join() {
    let result = html_to_markdown("<blockquote>a<blockquote>b</blockquote></blockquote>", config());
    assert_eq!(result.markdown, "> a\n> > b");
}

#[test]
fn image_needs_a_source() {
    let result = html_to_markdown("<p>x</p><img alt=\"pic\" src=\"/i.png\"><img alt=\"none\">", config());
    assert_eq!(result.markdown, "x\n\n![pic](/i.png)");
}

#[test]
fn image_without_alt_has_empty_text() {
    let result = html_to_markdown("<img src=\"/i.png\">", config());
    assert_eq!(result.markdown, "![](/i.png)");
}

#[test]
fn list_items_are_numbered_and_indented() {
    let html = "<ol><li>a</li><li>b<ul><li>c</li></ul></li></ol>";
    let result = html_to_markdown(html, config());
    assert_eq!(result.markdown, "1. a\n2. b\n   * c");
}

#[test]
fn scripts_styles_and_comments_are_pruned_when_asked() {
    let html = "<p>a</p><script>var x;</script><style>p {}</style><!-- c --><p>b</p>";
    let mut c = config();
    c.cleaning_rules.remove_scripts = true;
    c.cleaning_rules.remove_styles = true;
    c.cleaning_rules.remove_comments = true;
    let pruned = html_to_markdown(html, c);
    assert_eq!(pruned.markdown, "a\n\nb");
    let kept = html_to_markdown(html, config());
    assert_eq!(kept.markdown, "a\n\nvar x;p {}\n\nb");
}

#[test]
fn more_than_two_line_breaks_are_cut_down() {
    let mut c = config();
    c.clean_whitespace = false;
    let result = html_to_markdown("<pre>a\n\n\n\nb</pre>", c);
    assert_eq!(result.markdown, "```\na\n\nb\n```");
    c.cleaning_rules.preserve_line_breaks = true;
    let kept = html_to_markdown("<pre>a\n\n\n\nb</pre>", c);
    assert_eq!(kept.markdown, "```\na\n\n\n\nb\n```");
}

#[test]
fn metadata_block_comes_first() {
    let html = "<html><head><title> Page </title>\
        <meta name=\"description\" content=\"plain\">\
        <meta property=\"og:description\" content=\"graph\">\
        <meta name=\"author\" content=\"Ann\">\
        <meta property=\"article:published_time\" content=\"2020-01-02\">\
        <meta name=\"keywords\" content=\"a, b,a, ,c\">\
        <meta property=\"article:tag\" content=\"b\">\
        </head><body><p>text</p></body></html>";
    let mut c = config();
    c.include_metadata = true;
    let result = html_to_markdown(html, c);
    assert_eq!(
        result.markdown,
        "# Page\n\n---\nAuthor: Ann\nDate: 2020-01-02\nDescription: graph\nTags: a, b, c\n---\n\nPage\n\ntext"
    );
}

#[test]
fn open_graph_title_wins_over_the_title_element() {
    let html = "<html><head><title>Plain</title>\
        <meta property=\"og:title\" content=\"Graph\"></head><body></body></html>";
    let mut c = config();
    c.include_metadata = true;
    let result = html_to_markdown(html, c);
    assert_eq!(result.markdown, "# Graph\n\n---\n---\n\nPlain");
}

#[test]
fn paragraphs_are_set_apart_by_blank_lines() {
    let html = "<p>a</p><blockquote>q</blockquote><p>b</p><ul><li>i</li></ul><p>c</p>\
        <pre>k</pre><p>d</p><table><tr><td>t</td></tr></table><p>e</p>text<p>f</p>";
    let result = html_to_markdown(html, config());
    assert_eq!(
        result.markdown,
        "a\n\n> q\n\nb\n\n* i\n\nc\n\n```\nk\n```\n\nd\n\n| t |\n| - |\n\ne\n\ntext\n\nf"
    );
}

#[test]
fn quote_marks_every_line_of_what_is_in_it() {
    let html = "<blockquote><p>a</p><p>b</p><pre>x\ny</pre><ul><li>i</li></ul>\
        <blockquote><p>in</p></blockquote></blockquote><p>out</p>";
    let result = html_to_markdown(html, config());
    assert_eq!(
        result.markdown,
        "> a\n\n> b\n\n> ```\n> x\n> y\n> ```\n> * i\n> > in\n\nout"
    );
}

#[test]
fn link_at_the_start_of_a_quoted_line_keeps_the_marker_outside() {
    let result = html_to_markdown("<blockquote><a href=\"/x\">t</a> u</blockquote>", config());
    assert_eq!(result.markdown, "> [t](/x)u");
}

#[test]
fn paragraph_that_opens_a_list_item_stays_on_its_line() {
    let result = html_to_markdown("<ul><li><p>a</p></li><li><p>b</p><p>c</p></li></ul>", config());
    assert_eq!(result.markdown, "* a\n\n* b\n\nc");
}

#[test]
fn malformed_html_is_mended_not_refused() {
    for html in [
        "",
        "<",
        "<p>unclosed <b>bold <i>both</p><td>cell</table></div>",
        "</p></p><a href=>x",
        "<html><html><body><body>text\u{0}more",
        "<table><tr><td>a<table><tr><td>b</table>",
        "plain text without any tag",
    ] {
        assert!(try_html_to_markdown(html, config()).is_some());
    }
    assert_eq!(html_to_markdown("plain text without any tag", config()).markdown, "plain text without any tag");
    assert_eq!(html_to_markdown("", config()).markdown, "");
}

#[test]
fn deeply_nested_document_converts() {
    let depth = 200;
    let html = format!("{}x{}", "<div>".repeat(depth), "</div>".repeat(depth));
    assert_eq!(html_to_markdown(&html, config()).markdown, "x");
}
