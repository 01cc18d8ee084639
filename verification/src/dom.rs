//! The document tree that the converter walks.

use crate::text::str_eq;
use html5ever::tendril::TendrilSink;
use markup5ever_rcdom::NodeData;
use vstd::prelude::*;

verus! {

/// One attribute of an element.
#[derive(Debug)]
pub struct DomAttribute {
    pub name: String,
    pub value: String,
}

/// What a node is, with the data that the conversion reads.
#[derive(Debug)]
pub enum DomData {
    Document,
    Doctype,
    Text { contents: String },
    Comment,
    Element { name: String, attrs: Vec<DomAttribute> },
    ProcessingInstruction,
}

/// A node of a document with the nodes below it, in document order.
#[derive(Debug)]
pub struct DomNode {
    pub data: DomData,
    pub children: Vec<DomNode>,
}

/// The mathematical content of an [`DomAttribute`].
pub struct Attr {
    pub name: Seq<char>,
    pub value: Seq<char>,
}

/// The mathematical content of a [`DomData`].
pub enum TreeData {
    Document,
    Doctype,
    Text { contents: Seq<char> },
    Comment,
    Element { name: Seq<char>, attrs: Seq<Attr> },
    ProcessingInstruction,
}

/// The mathematical content of a [`DomNode`]: a finite ordered tree.
pub struct Tree {
    pub data: TreeData,
    pub children: Seq<Tree>,
}

impl DeepView for DomAttribute {
    type V = Attr;

    open spec fn deep_view(&self) -> Attr {
        Attr { name: self.name@, value: self.value@ }
    }
}

impl View for DomData {
    type V = TreeData;

    open spec fn view(&self) -> TreeData {
        match self {
            DomData::Document => TreeData::Document,
            DomData::Doctype => TreeData::Doctype,
            DomData::Text { contents } => TreeData::Text { contents: contents@ },
            DomData::Comment => TreeData::Comment,
            DomData::Element { name, attrs } => TreeData::Element {
                name: name@,
                attrs: attrs.deep_view(),
            },
            DomData::ProcessingInstruction => TreeData::ProcessingInstruction,
        }
    }
}

/// The tree that a node and the nodes below it stand for.
pub open spec fn tree_of(node: DomNode) -> Tree
    decreases node,
{
    Tree {
        data: node.data@,
        children: Seq::new(
            node.children@.len(),
            |i: int|
                if 0 <= i < node.children@.len() {
                    tree_of(node.children@[i])
                } else {
                    arbitrary()
                },
        ),
    }
}

impl View for DomNode {
    type V = Tree;

    open spec fn view(&self) -> Tree {
        tree_of(*self)
    }
}

/// The view of a node holds the view of its data and, in the same order, the
/// views of its children.
pub proof fn lemma_node_view(node: DomNode)
    ensures
        node@.data == node.data@,
        node@.children.len() == node.children@.len(),
        forall|i: int|
            0 <= i < node.children@.len() ==> #[trigger] node@.children[i] == node.children@[i]@,
{
}

/// The value of the first of `attrs[i..]` that is named `name`.
pub open spec fn first_attr_from(attrs: Seq<Attr>, name: Seq<char>, i: int) -> Option<Seq<char>>
    decreases attrs.len() - i,
{
    if !(0 <= i < attrs.len()) {
        None
    } else if attrs[i].name == name {
        Some(attrs[i].value)
    } else {
        first_attr_from(attrs, name, i + 1)
    }
}

/// The value of the first attribute named `name`.
pub open spec fn first_attr(attrs: Seq<Attr>, name: Seq<char>) -> Option<Seq<char>> {
    first_attr_from(attrs, name, 0)
}

/// The value of the last of `attrs[..n]` that is named `name`.
pub open spec fn last_attr_to(attrs: Seq<Attr>, name: Seq<char>, n: int) -> Option<Seq<char>>
    decreases n,
{
    if !(0 < n <= attrs.len()) {
        None
    } else if attrs[n - 1].name == name {
        Some(attrs[n - 1].value)
    } else {
        last_attr_to(attrs, name, n - 1)
    }
}

/// The value of the last attribute named `name`.
pub open spec fn last_attr(attrs: Seq<Attr>, name: Seq<char>) -> Option<Seq<char>> {
    last_attr_to(attrs, name, attrs.len() as int)
}

/// The value of the first attribute of `attrs` that is named `name`.
pub fn find_attr<'a>(attrs: &'a Vec<DomAttribute>, name: &str) -> (value: Option<&'a str>)
    ensures
        value.deep_view() == first_attr(attrs.deep_view(), name@),
{
    let mut i: usize = 0;
    while i < attrs.len()
        invariant
            i <= attrs.len(),
            first_attr_from(attrs.deep_view(), name@, i as int) == first_attr(
                attrs.deep_view(),
                name@,
            ),
        decreases attrs.len() - i,
    {
        if str_eq(attrs[i].name.as_str(), name) {
            return Some(attrs[i].value.as_str());
        }
        i += 1;
    }
    None
}

/// The value of the last attribute of `attrs` that is named `name`.
pub fn find_last_attr<'a>(attrs: &'a Vec<DomAttribute>, name: &str) -> (value: Option<&'a str>)
    ensures
        value.deep_view() == last_attr(attrs.deep_view(), name@),
{
    let mut n: usize = attrs.len();
    while n > 0
        invariant
            n <= attrs.len(),
            last_attr_to(attrs.deep_view(), name@, n as int) == last_attr(attrs.deep_view(), name@),
        decreases n,
    {
        if str_eq(attrs[n - 1].name.as_str(), name) {
            return Some(attrs[n - 1].value.as_str());
        }
        n -= 1;
    }
    None
}

/// Makes the node type of `markup5ever_rcdom` known. Nothing is said of what
/// a node holds.
#[verifier::external_type_specification]
#[verifier::external_body]
pub struct ExHandleNode(markup5ever_rcdom::Node);

/// The tree that the HTML parser builds from the text `html`, or `None` where
/// reading the text failed.
pub uninterp spec fn parsed_document(html: Seq<char>) -> Option<Tree>;

/// Moves a node of the parser's tree over, with the nodes below it in order.
/// The data is moved variant by variant: of a text its contents, of an
/// element its local name and, of each attribute, the local name and the
/// value. Nothing is promised of it alone: it is a part of [`parse_html`].
#[verifier::external_body]
fn node_from(handle: &markup5ever_rcdom::Node) -> DomNode {
    let data = match &handle.data {
        NodeData::Document => DomData::Document,
        NodeData::Doctype { .. } => DomData::Doctype,
        NodeData::Text { contents } => DomData::Text { contents: contents.borrow().to_string() },
        NodeData::Comment { .. } => DomData::Comment,
        NodeData::ProcessingInstruction { .. } => DomData::ProcessingInstruction,
        NodeData::Element { name, attrs, .. } => DomData::Element {
            name: name.local.to_string(),
            attrs: attrs.borrow().iter().map(
                |a| DomAttribute { name: a.name.local.to_string(), value: a.value.to_string() },
            ).collect(),
        },
    };
    DomNode { data, children: handle.children.borrow().iter().map(|c| node_from(c)).collect() }
}

/// Calls `html5ever::parse_document` with a `markup5ever_rcdom::RcDom` as its
/// sink and the default options, feeds it the bytes of `html`, and moves the
/// tree that comes out over, node by node. The contract names the outcome: it
/// is [`parsed_document`] of the text, the same for equal texts.
#[verifier::external_body]
pub(crate) fn parse_html(html: &str) -> (doc: Option<DomNode>)
    ensures
        doc.is_some() == parsed_document(html@).is_some(),
        doc.is_some() ==> doc.unwrap()@ == parsed_document(html@).unwrap(),
{
    html5ever::parse_document(markup5ever_rcdom::RcDom::default(), Default::default())
        .from_utf8()
        .read_from(&mut html.as_bytes())
        .ok()
        .map(|dom| node_from(&dom.document))
}

/// Parses the HTML text `html` into a document tree. The parser mends what is
/// malformed; `None` means that the text could not be read at all.
pub fn parse(html: &str) -> (doc: Option<DomNode>)
    ensures
        doc is Some <==> parsed_document(html@) is Some,
        doc matches Some(d) ==> d@ == parsed_document(html@)->0,
{
    parse_html(html)
}

} // verus!
