//! The element tree that the reader walks. `roxmltree` parses the text; the
//! library copies what it reads of the parsed document, node by node in
//! document order, and rebuilds the tree from that list.

use vstd::prelude::*;

verus! {

/// An XML node as the protocol sees it: an element with a name and children,
/// a run of text, or something the protocol ignores (a comment, a processing
/// instruction).
#[derive(Debug, PartialEq)]
pub enum XmlNode {
    Element { name: String, children: Vec<XmlNode> },
    Text { text: String },
    Other,
}

/// The mathematical model of an [`XmlNode`].
pub enum Markup {
    Element { name: Seq<char>, children: Seq<Markup> },
    Text { text: Seq<char> },
    Other,
}

/// The model of a node.
pub open spec fn markup_of(node: XmlNode) -> Markup
    decreases node,
{
    match node {
        XmlNode::Element { name, children } => Markup::Element {
            name: name@,
            children: Seq::new(
                children.len() as nat,
                |i: int|
                    if 0 <= i < children.len() {
                        markup_of(children[i])
                    } else {
                        Markup::Other
                    },
            ),
        },
        XmlNode::Text { text } => Markup::Text { text: text@ },
        XmlNode::Other => Markup::Other,
    }
}

impl View for XmlNode {
    type V = Markup;

    open spec fn view(&self) -> Markup {
        markup_of(*self)
    }
}

/// The models of a vector of nodes, in order.
pub open spec fn nodes_view(nodes: Seq<XmlNode>) -> Seq<Markup> {
    Seq::new(nodes.len(), |i: int| nodes[i]@)
}

/// The model of an element is its name and the models of its children.
pub proof fn lemma_element_view(name: String, children: Vec<XmlNode>)
    ensures
        (XmlNode::Element { name, children })@ == (Markup::Element {
            name: name@,
            children: nodes_view(children@),
        }),
{
    assert((XmlNode::Element { name, children })@->children =~= nodes_view(children@));
}

/// One node of a parsed document, as copied from the parser: what kind it
/// is, its tag name or text, and how many nodes its subtree holds, itself
/// included.
pub enum RawNode {
    Element { name: String, span: usize },
    Text { text: String },
    Other { span: usize },
}

/// The mathematical model of a [`RawNode`].
pub enum RawNodeView {
    Element { name: Seq<char>, span: usize },
    Text { text: Seq<char> },
    Other { span: usize },
}

impl View for RawNode {
    type V = RawNodeView;

    open spec fn view(&self) -> RawNodeView {
        match self {
            RawNode::Element { name, span } => RawNodeView::Element { name: name@, span: *span },
            RawNode::Text { text } => RawNodeView::Text { text: text@ },
            RawNode::Other { span } => RawNodeView::Other { span: *span },
        }
    }
}

/// The models of a vector of copied nodes, in order.
pub open spec fn raw_view(nodes: Seq<RawNode>) -> Seq<RawNodeView> {
    Seq::new(nodes.len(), |i: int| nodes[i]@)
}

/// The nodes of the document that `roxmltree::Document::parse` builds from a
/// text, in document order and starting with the document's root node;
/// `None` where it refuses the text.
pub uninterp spec fn parsed_nodes(text: Seq<char>) -> Option<Seq<RawNodeView>>;

/// `roxmltree::Error`: why the parser refused a text. It is carried from
/// the parser to where its message is taken, and not looked into.
#[verifier::external_type_specification]
#[verifier::external_body]
pub struct ExSyntaxError(roxmltree::Error);

/// Calls `roxmltree::Document::parse` and copies each node of
/// `Document::descendants`: its `node_type`, the local part of its
/// `tag_name`, its `text`, and the count of its own `descendants`. The
/// contract only names the outcome.
#[verifier::external_body]
fn parse_nodes(text: &str) -> (r: Result<Vec<RawNode>, roxmltree::Error>)
    ensures
        match r {
            Ok(nodes) => parsed_nodes(text@) == Some(raw_view(nodes@)),
            Err(_) => parsed_nodes(text@) is None,
        },
{
    let document = roxmltree::Document::parse(text)?;
    Ok(document.descendants().map(|n| match n.node_type() {
        roxmltree::NodeType::Element => RawNode::Element {
            name: n.tag_name().name().to_string(),
            span: n.descendants().count(),
        },
        roxmltree::NodeType::Text => RawNode::Text { text: n.text().unwrap_or("").to_string() },
        roxmltree::NodeType::Root => RawNode::Other { span: n.descendants().count() },
        roxmltree::NodeType::PI => RawNode::Other { span: n.descendants().count() },
        roxmltree::NodeType::Comment => RawNode::Other { span: n.descendants().count() },
    }).collect())
}

/// Renders a `roxmltree::Error` with its `Display` impl. Nothing is claimed
/// of the words.
#[verifier::external_body]
fn describe_syntax_error(error: &roxmltree::Error) -> (r: String) {
    error.to_string()
}

/// How many of the `room` nodes that are left a node's subtree takes: what
/// the node says, but at least itself and at most what is left.
pub open spec fn span_within(node: RawNodeView, room: int) -> int {
    let claimed: int = match node {
        RawNodeView::Element { span, .. } => span as int,
        RawNodeView::Text { .. } => 1,
        RawNodeView::Other { span } => span as int,
    };
    if claimed < 1 {
        1
    } else if claimed > room {
        room
    } else {
        claimed
    }
}

/// The trees that the nodes `start..end` of a document-order list form: the
/// first node with the nodes of its span below it, then the trees of what
/// follows its span.
pub open spec fn forest(nodes: Seq<RawNodeView>, start: int, end: int) -> Seq<Markup>
    decreases end - start,
{
    if !(0 <= start < end <= nodes.len()) {
        Seq::empty()
    } else {
        let span = span_within(nodes[start], end - start);
        let head = match nodes[start] {
            RawNodeView::Element { name, .. } => Markup::Element {
                name,
                children: forest(nodes, start + 1, start + span),
            },
            RawNodeView::Text { text } => Markup::Text { text },
            RawNodeView::Other { .. } => Markup::Other,
        };
        seq![head] + forest(nodes, start + span, end)
    }
}

/// The top-level nodes of a parsed document: the trees below its root node.
pub open spec fn document_of(nodes: Seq<RawNodeView>) -> Seq<Markup> {
    forest(nodes, 1, nodes.len() as int)
}

/// What the reader makes of a text: the top-level nodes of the document
/// that the parser builds from it, `None` where the parser refuses it.
pub open spec fn parsed_document(text: Seq<char>) -> Option<Seq<Markup>> {
    match parsed_nodes(text) {
        Some(nodes) => Some(document_of(nodes)),
        None => None,
    }
}

fn span_of(node: &RawNode, room: usize) -> (r: usize)
    requires
        room >= 1,
    ensures
        r == span_within(node@, room as int),
        1 <= r <= room,
{
    let claimed: usize = match node {
        RawNode::Element { span, .. } => *span,
        RawNode::Text { .. } => 1,
        RawNode::Other { span } => *span,
    };
    if claimed < 1 {
        1
    } else if claimed > room {
        room
    } else {
        claimed
    }
}

/// Rebuilds the trees that the nodes `start..end` form.
fn assemble(nodes: &Vec<RawNode>, start: usize, end: usize) -> (r: Vec<XmlNode>)
    requires
        start <= end <= nodes.len(),
    ensures
        nodes_view(r@) == forest(raw_view(nodes@), start as int, end as int),
    decreases end - start,
{
    let ghost raw = raw_view(nodes@);
    let mut out: Vec<XmlNode> = Vec::new();
    let mut i: usize = start;
    while i < end
        invariant
            start <= i <= end <= nodes.len(),
            raw == raw_view(nodes@),
            forest(raw, start as int, end as int) == nodes_view(out@) + forest(
                raw,
                i as int,
                end as int,
            ),
        decreases end - i,
    {
        let span = span_of(&nodes[i], end - i);
        let node = match &nodes[i] {
            RawNode::Element { name, .. } => {
                let children = assemble(nodes, i + 1, i + span);
                proof {
                    lemma_element_view(*name, children);
                }
                XmlNode::Element { name: name.clone(), children }
            },
            RawNode::Text { text } => XmlNode::Text { text: text.clone() },
            RawNode::Other { .. } => XmlNode::Other,
        };
        proof {
            let head = forest(raw, i as int, end as int)[0];
            assert(node@ == head);
            assert(forest(raw, i as int, end as int) == seq![head] + forest(
                raw,
                i + span,
                end as int,
            ));
            assert(nodes_view(out@.push(node)) =~= nodes_view(out@).push(head));
            assert(nodes_view(out@) + (seq![head] + forest(raw, i + span, end as int))
                =~= nodes_view(out@).push(head) + forest(raw, i + span, end as int));
        }
        out.push(node);
        i = i + span;
    }
    proof {
        assert(nodes_view(out@) + Seq::<Markup>::empty() =~= nodes_view(out@));
    }
    out
}

/// Parses a text into the top-level nodes of its document.
pub fn parse_document(text: &str) -> (r: Result<Vec<XmlNode>, String>)
    ensures
        match r {
            Ok(nodes) => parsed_document(text@) == Some(nodes_view(nodes@)),
            Err(_) => parsed_document(text@) is None,
        },
{
    match parse_nodes(text) {
        Ok(nodes) => {
            if nodes.len() == 0 {
                proof {
                    assert(nodes_view(Seq::<XmlNode>::empty()) =~= Seq::<Markup>::empty());
                }
                Ok(Vec::new())
            } else {
                Ok(assemble(&nodes, 1, nodes.len()))
            }
        },
        Err(error) => Err(describe_syntax_error(&error)),
    }
}

} // verus!
