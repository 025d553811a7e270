//! The writer: from values to XML text. The text goes event by event to a
//! `quick_xml::Writer` over a byte vector; what is written is stated as
//! the rendering of an element tree.

use vstd::prelude::*;
use crate::binary::{base64_text, encode_base64};
use crate::decimal::{format_signed, int_text};
use crate::markup::Markup;
use crate::value::{lemma_array_view, lemma_struct_view, Datum, Value};

verus! {

/// `quick_xml::Writer`: what it holds is spoken of through `written` and
/// `plain` alone.
#[verifier::external_type_specification]
#[verifier::external_body]
#[verifier::reject_recursive_types(W)]
pub struct ExWriter<W>(quick_xml::Writer<W>);

/// The text that a writer has put into its byte vector so far.
pub uninterp spec fn written(writer: quick_xml::Writer<Vec<u8>>) -> Seq<char>;

/// Whether a writer writes events as they are: it was made without
/// indentation, over a byte vector that holds UTF-8 text.
pub uninterp spec fn plain(writer: quick_xml::Writer<Vec<u8>>) -> bool;

/// `<name>`
pub open spec fn open_tag(name: Seq<char>) -> Seq<char> {
    seq!['<'] + name + seq!['>']
}

/// `</name>`
pub open spec fn close_tag(name: Seq<char>) -> Seq<char> {
    seq!['<', '/'] + name + seq!['>']
}

/// How one character stands in element text: the five characters that XML
/// reserves and the carriage return stand as entities, the others as they are.
pub open spec fn escaped_char(c: char) -> Seq<char> {
    if c == '<' {
        "&lt;"@
    } else if c == '>' {
        "&gt;"@
    } else if c == '&' {
        "&amp;"@
    } else if c == '\'' {
        "&apos;"@
    } else if c == '"' {
        "&quot;"@
    } else if c == '\r' {
        "&#13;"@
    } else {
        seq![c]
    }
}

/// How a text stands in element text: character by character.
pub open spec fn escaped(text: Seq<char>) -> Seq<char>
    decreases text.len(),
{
    if text.len() == 0 {
        Seq::empty()
    } else {
        escaped(text.drop_last()) + escaped_char(text.last())
    }
}

/// What the writer is asked to write.
pub enum XmlEvent<'a> {
    /// The XML declaration, with the version only.
    Declaration { version: &'a str },
    /// The start tag of an element without attributes.
    Start { name: &'a str },
    /// The end tag of an element.
    End { name: &'a str },
    /// Text inside an element.
    Text { text: &'a str },
}

impl XmlEvent<'_> {
    /// The text that an event stands for in a document.
    pub open spec fn text(self) -> Seq<char> {
        match self {
            XmlEvent::Declaration { version } => "<?xml version=\""@ + version@ + "\"?>"@,
            XmlEvent::Start { name } => open_tag(name@),
            XmlEvent::End { name } => close_tag(name@),
            XmlEvent::Text { text } => escaped(text@),
        }
    }
}

/// `Writer::new` over an empty vector.
#[verifier::external_body]
pub(crate) fn new_writer() -> (writer: quick_xml::Writer<Vec<u8>>)
    ensures
        plain(writer),
        written(writer) == Seq::<char>::empty(),
{
    quick_xml::Writer::new(Vec::new())
}

/// `Writer::write_event`. A plain writer writes `<?`, the declaration's
/// content and `?>` for `Event::Decl`; `<`, the name and `>` for
/// `Event::Start`; `</`, the name and `>` for `Event::End`; and for
/// `Event::Text` the content, which `BytesText::new` has escaped with
/// `quick_xml::escape::escape`. `BytesDecl::new` with a version alone makes
/// the content `xml version="` followed by the version and `"`. On a byte
/// vector the write cannot fail.
#[verifier::external_body]
fn write_event(writer: &mut quick_xml::Writer<Vec<u8>>, event: XmlEvent)
    requires
        plain(*old(writer)),
    ensures
        plain(*final(writer)),
        written(*final(writer)) == written(*old(writer)) + event.text(),
{
    let _ = writer.write_event(match event {
        XmlEvent::Declaration { version } => quick_xml::events::Event::Decl(
            quick_xml::events::BytesDecl::new(version, None, None),
        ),
        XmlEvent::Start { name } => quick_xml::events::Event::Start(
            quick_xml::events::BytesStart::new(name),
        ),
        XmlEvent::End { name } => quick_xml::events::Event::End(
            quick_xml::events::BytesEnd::new(name),
        ),
        XmlEvent::Text { text } => quick_xml::events::Event::Text(
            quick_xml::events::BytesText::new(text),
        ),
    });
}

/// Writes the declaration that starts every document.
pub(crate) fn write_declaration(writer: &mut quick_xml::Writer<Vec<u8>>)
    requires
        plain(*old(writer)),
    ensures
        plain(*final(writer)),
        written(*final(writer)) == written(*old(writer)) + "<?xml version=\"1.0\"?>"@,
{
    write_event(writer, XmlEvent::Declaration { version: "1.0" });
    proof {
        reveal_strlit("<?xml version=\"");
        reveal_strlit("1.0");
        reveal_strlit("\"?>");
        reveal_strlit("<?xml version=\"1.0\"?>");
        assert("<?xml version=\""@ + "1.0"@ + "\"?>"@ =~= "<?xml version=\"1.0\"?>"@);
    }
}

/// Writes the start tag of an element.
pub(crate) fn write_start(writer: &mut quick_xml::Writer<Vec<u8>>, name: &str)
    requires
        plain(*old(writer)),
    ensures
        plain(*final(writer)),
        written(*final(writer)) == written(*old(writer)) + open_tag(name@),
{
    write_event(writer, XmlEvent::Start { name });
}

/// Writes the end tag of an element.
pub(crate) fn write_end(writer: &mut quick_xml::Writer<Vec<u8>>, name: &str)
    requires
        plain(*old(writer)),
    ensures
        plain(*final(writer)),
        written(*final(writer)) == written(*old(writer)) + close_tag(name@),
{
    write_event(writer, XmlEvent::End { name });
}

/// Writes text, escaped.
fn write_text(writer: &mut quick_xml::Writer<Vec<u8>>, text: &str)
    requires
        plain(*old(writer)),
    ensures
        plain(*final(writer)),
        written(*final(writer)) == written(*old(writer)) + escaped(text@),
{
    write_event(writer, XmlEvent::Text { text });
}

/// `Writer::into_inner`, and `String::from_utf8` on the bytes.
#[verifier::external_body]
pub(crate) fn into_text(writer: quick_xml::Writer<Vec<u8>>) -> (r: String)
    requires
        plain(writer),
    ensures
        r@ == written(writer),
{
    String::from_utf8(writer.into_inner()).unwrap_or_default()
}

/// The text of an element tree: tags around the texts of the children,
/// text escaped. What the protocol ignores leaves no text.
pub open spec fn render(node: Markup) -> Seq<char>
    decreases node,
{
    match node {
        Markup::Element { name, children } => open_tag(name) + render_all(children) + close_tag(
            name,
        ),
        Markup::Text { text } => escaped(text),
        Markup::Other => Seq::empty(),
    }
}

/// The texts of some nodes, one after the other.
pub open spec fn render_all(nodes: Seq<Markup>) -> Seq<char>
    decreases nodes,
{
    if nodes.len() == 0 {
        Seq::empty()
    } else {
        render_all(nodes.drop_last()) + render(nodes.last())
    }
}

pub proof fn lemma_render_all_push(nodes: Seq<Markup>, node: Markup)
    ensures
        render_all(nodes.push(node)) == render_all(nodes) + render(node),
{
    assert(nodes.push(node).drop_last() =~= nodes);
}

pub proof fn lemma_render_all_one(node: Markup)
    ensures
        render_all(seq![node]) == render(node),
{
    lemma_render_all_push(Seq::empty(), node);
    assert(Seq::<Markup>::empty().push(node) =~= seq![node]);
    assert(render_all(Seq::<Markup>::empty()) + render(node) =~= render(node));
}

pub proof fn lemma_render_all_two(first: Markup, second: Markup)
    ensures
        render_all(seq![first, second]) == render(first) + render(second),
{
    lemma_render_all_one(first);
    lemma_render_all_push(seq![first], second);
    assert(seq![first].push(second) =~= seq![first, second]);
}

/// An element that holds only text; without a text node where the text is
/// empty.
pub open spec fn leaf(name: Seq<char>, text: Seq<char>) -> Markup {
    Markup::Element {
        name,
        children: if text.len() == 0 {
            Seq::empty()
        } else {
            seq![Markup::Text { text }]
        },
    }
}

pub proof fn lemma_render_leaf(name: Seq<char>, text: Seq<char>)
    ensures
        render(leaf(name, text)) == open_tag(name) + escaped(text) + close_tag(name),
{
    if text.len() == 0 {
        assert(open_tag(name) + Seq::<char>::empty() + close_tag(name) =~= open_tag(name)
            + escaped(text) + close_tag(name));
    } else {
        lemma_render_all_one(Markup::Text { text });
    }
}

/// The typed element that carries a value, such as `<i4>` or `<struct>`.
pub open spec fn typed_markup(datum: Datum) -> Markup
    decreases datum, 0int,
{
    match datum {
        Datum::Int(v) => leaf("i4"@, int_text(v as int)),
        Datum::Bool(v) => leaf(
            "boolean"@,
            if v {
                "1"@
            } else {
                "0"@
            },
        ),
        Datum::Text(text) => leaf("string"@, text),
        Datum::Double(text) => leaf("double"@, text),
        Datum::DateTime(instant) => leaf("dateTime.iso8601"@, instant.wire_text()),
        Datum::Bytes(bytes) => leaf("base64"@, base64_text(bytes)),
        Datum::Array(items) => Markup::Element {
            name: "array"@,
            children: seq![
                Markup::Element {
                    name: "data"@,
                    children: Seq::new(
                        items.len(),
                        |i: int|
                            if 0 <= i < items.len() {
                                value_markup(items[i])
                            } else {
                                Markup::Other
                            },
                    ),
                },
            ],
        },
        Datum::Struct(members) => Markup::Element {
            name: "struct"@,
            children: Seq::new(
                members.len(),
                |i: int|
                    if 0 <= i < members.len() {
                        member_markup(members[i].0, members[i].1)
                    } else {
                        Markup::Other
                    },
            ),
        },
    }
}

/// The `<member>` element of a named member.
pub open spec fn member_markup(name: Seq<char>, datum: Datum) -> Markup
    decreases datum, 2int,
{
    Markup::Element { name: "member"@, children: seq![leaf("name"@, name), value_markup(datum)] }
}

/// The `<value>` element that carries a value.
pub open spec fn value_markup(datum: Datum) -> Markup
    decreases datum, 1int,
{
    Markup::Element { name: "value"@, children: seq![typed_markup(datum)] }
}

/// Writes an element that holds only text.
pub(crate) fn write_leaf(writer: &mut quick_xml::Writer<Vec<u8>>, name: &str, text: &str)
    requires
        plain(*old(writer)),
    ensures
        plain(*final(writer)),
        written(*final(writer)) == written(*old(writer)) + render(leaf(name@, text@)),
{
    let ghost before = written(*writer);
    write_start(writer, name);
    write_text(writer, text);
    write_end(writer, name);
    proof {
        lemma_render_leaf(name@, text@);
        assert(before + open_tag(name@) + escaped(text@) + close_tag(name@) =~= before + (open_tag(
            name@,
        ) + escaped(text@) + close_tag(name@)));
    }
}

impl Value {
    /// Writes the `<value>` element of this value.
    pub fn write_xml(&self, writer: &mut quick_xml::Writer<Vec<u8>>)
        requires
            plain(*old(writer)),
        ensures
            plain(*final(writer)),
            written(*final(writer)) == written(*old(writer)) + render(value_markup(self@)),
        decreases self,
    {
        let ghost before = written(*writer);
        write_start(writer, "value");
        let ghost inside = written(*writer);
        match self {
            Value::Int(v) => {
                let text = format_signed(*v as i64);
                write_leaf(writer, "i4", text.as_str());
            },
            Value::Bool(v) => {
                write_leaf(
                    writer,
                    "boolean",
                    if *v {
                        "1"
                    } else {
                        "0"
                    },
                );
            },
            Value::String(v) => {
                write_leaf(writer, "string", v.as_str());
            },
            Value::Double(v) => {
                write_leaf(writer, "double", v.as_str());
            },
            Value::DateTime(v) => {
                let text = v.to_rfc3339();
                write_leaf(writer, "dateTime.iso8601", text.as_str());
            },
            Value::Base64(v) => {
                let text = encode_base64(v);
                write_leaf(writer, "base64", text.as_str());
            },
            Value::Array(items) => {
                proof {
                    lemma_array_view(*items);
                }
                let ghost data = typed_markup(self@)->children[0]->children;
                write_start(writer, "array");
                write_start(writer, "data");
                let ghost start = written(*writer);
                let mut i: usize = 0;
                while i < items.len()
                    invariant
                        i <= items.len(),
                        plain(*writer),
                        self == Value::Array(*items),
                        data == typed_markup(self@)->children[0]->children,
                        data.len() == items.len(),
                        written(*writer) == start + render_all(data.take(i as int)),
                    decreases items.len() - i,
                {
                    items[i].write_xml(writer);
                    proof {
                        lemma_array_view(*items);
                        assert(data[i as int] == value_markup(items[i as int]@));
                        assert(data.take(i as int + 1) =~= data.take(i as int).push(data[i as int]));
                        lemma_render_all_push(data.take(i as int), data[i as int]);
                        assert(start + render_all(data.take(i as int)) + render(data[i as int])
                            =~= start + (render_all(data.take(i as int)) + render(
                            data[i as int],
                        )));
                    }
                    i = i + 1;
                }
                write_end(writer, "data");
                write_end(writer, "array");
                proof {
                    assert(data.take(i as int) =~= data);
                    let data_node = Markup::Element { name: "data"@, children: data };
                    lemma_render_all_one(data_node);
                    assert(typed_markup(self@)->children =~= seq![data_node]);
                    assert(written(*writer) =~= inside + render(typed_markup(self@)));
                }
            },
            Value::Struct(members) => {
                proof {
                    lemma_struct_view(*members);
                }
                let ghost nodes = typed_markup(self@)->children;
                write_start(writer, "struct");
                let ghost start = written(*writer);
                let mut i: usize = 0;
                while i < members.len()
                    invariant
                        i <= members.len(),
                        plain(*writer),
                        self == Value::Struct(*members),
                        nodes == typed_markup(self@)->children,
                        nodes.len() == members.len(),
                        written(*writer) == start + render_all(nodes.take(i as int)),
                    decreases members.len() - i,
                {
                    let ghost at_member = written(*writer);
                    write_start(writer, "member");
                    write_leaf(writer, "name", members[i].0.as_str());
                    members[i].1.write_xml(writer);
                    write_end(writer, "member");
                    proof {
                        lemma_struct_view(*members);
                        let name = members[i as int].0@;
                        let datum = members[i as int].1@;
                        assert(nodes[i as int] == member_markup(name, datum));
                        lemma_render_all_two(leaf("name"@, name), value_markup(datum));
                        assert(written(*writer) =~= at_member + render(nodes[i as int]));
                        assert(nodes.take(i as int + 1) =~= nodes.take(i as int).push(
                            nodes[i as int],
                        ));
                        lemma_render_all_push(nodes.take(i as int), nodes[i as int]);
                        assert(start + render_all(nodes.take(i as int)) + render(nodes[i as int])
                            =~= start + (render_all(nodes.take(i as int)) + render(
                            nodes[i as int],
                        )));
                    }
                    i = i + 1;
                }
                write_end(writer, "struct");
                proof {
                    assert(nodes.take(i as int) =~= nodes);
                    assert(written(*writer) =~= inside + render(typed_markup(self@)));
                }
            },
        }
        write_end(writer, "value");
        proof {
            lemma_render_all_one(typed_markup(self@));
            assert(written(*writer) =~= before + render(value_markup(self@)));
        }
    }
}

} // verus!
