use mdcrawl::metadata::{split_at_commas, MetadataHandler};
use mdcrawl::text::to_chars;

#[test]
fn empty_metadata_is_two_rules() {
    let mut m = MetadataHandler::new();
    assert_eq!(m.format_metadata(), "---\n---\n\n");
}

#[test]
fn metadata_lists_what_is_known() {
    let mut m = MetadataHandler::new();
    m.title = Some("T".to_string());
    m.author = Some("A".to_string());
    m.date = Some("D".to_string());
    m.description = Some("Desc".to_string());
    m.tags = vec!["x".to_string(), "y".to_string(), "z".to_string()];
    assert_eq!(
        m.format_metadata(),
        "# T\n\n---\nAuthor: A\nDate: D\nDescription: Desc\nTags: x, y, z\n---\n\n"
    );
}

#[test]
fn empty_values_are_left_out() {
    let mut m = MetadataHandler::new();
    m.author = Some(String::new());
    m.description = Some("d".to_string());
    assert_eq!(m.format_metadata(), "---\nDescription: d\n---\n\n");
}

#[test]
fn first_open_graph_value_wins() {
    let mut m = MetadataHandler::new();
    m.record_property("og:title", "one");
    m.record_property("og:title", "two");
    m.record_property("og:description", "d1");
    m.record_property("og:description", "d2");
    m.record_property("article:author", "a1");
    m.record_property("article:author", "a2");
    m.record_property("article:published_time", "t1");
    m.record_property("article:published_time", "t2");
    m.record_property("og:image", "ignored");
    assert_eq!(m.title.as_deref(), Some("one"));
    assert_eq!(m.description.as_deref(), Some("d1"));
    assert_eq!(m.author.as_deref(), Some("a1"));
    assert_eq!(m.date.as_deref(), Some("t1"));
}

#[test]
fn open_graph_is_preferred_over_plain_names() {
    let mut m = MetadataHandler::new();
    m.record_name("description", "plain");
    m.record_name("description", "plain again");
    m.record_name("author", "plain author");
    assert_eq!(m.description.as_deref(), Some("plain"));
    m.record_property("og:description", "graph");
    m.record_property("article:author", "graph author");
    assert_eq!(m.description.as_deref(), Some("graph"));
    assert_eq!(m.author.as_deref(), Some("graph author"));
    m.record_name("description", "late plain");
    m.record_name("author", "late plain");
    assert_eq!(m.description.as_deref(), Some("graph"));
    assert_eq!(m.author.as_deref(), Some("graph author"));
}

#[test]
fn keywords_become_distinct_tags_in_order() {
    let mut m = MetadataHandler::new();
    m.record_property("article:tag", "b");
    m.record_name("keywords", " a, b ,, c,a ,  ");
    m.record_property("article:tag", "c");
    m.record_property("article:tag", "d");
    assert_eq!(m.tags, vec!["b", "a", "c", "d"]);
}

#[test]
fn document_title_is_used_only_without_another() {
    let mut m = MetadataHandler::new();
    m.record_document_title(None);
    assert_eq!(m.title, None);
    m.record_document_title(Some("doc".to_string()));
    assert_eq!(m.title.as_deref(), Some("doc"));
    m.record_document_title(Some("other".to_string()));
    assert_eq!(m.title.as_deref(), Some("doc"));
    let mut g = MetadataHandler::new();
    g.record_property("og:title", "graph");
    g.record_document_title(Some("doc".to_string()));
    assert_eq!(g.title.as_deref(), Some("graph"));
}

#[test]
fn text_is_split_at_commas() {
    let pieces: Vec<String> =
        split_at_commas(&to_chars("a,,b, c")).iter().map(|p| p.iter().collect()).collect();
    assert_eq!(pieces, vec!["a", "", "b", " c"]);
    let one: Vec<String> =
        split_at_commas(&to_chars("")).iter().map(|p| p.iter().collect()).collect();
    assert_eq!(one, vec![""]);
}
