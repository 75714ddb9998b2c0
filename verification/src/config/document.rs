//! The configuration document: the two levels of a KDL document that the
//! settings are read from, as plain values, and the parser that yields them.

use vstd::prelude::*;
use kdl::{KdlDocument, KdlError, KdlNode, KdlValue};
use crate::text::opt_view;

verus! {

/// A stretch of the source text, in bytes.
#[derive(Clone, Copy, Debug, PartialEq, Eq, Structural)]
pub struct Span {
    pub offset: usize,
    pub len: usize,
}

/// The kind of a value, as diagnostics name it.
#[derive(Clone, Copy, Debug, PartialEq, Eq, Structural)]
pub enum ValueKind {
    String,
    Number,
    Float,
    Boolean,
    Null,
}

/// A value of the document. A floating-point number is held as the bit
/// pattern of its double-precision form.
#[derive(Debug, PartialEq, Eq)]
pub enum Value {
    String(String),
    Integer(i128),
    Float(u64),
    Bool(bool),
    Null,
}

/// An argument (no name) or a property (with a name) of a node.
#[derive(Debug, PartialEq, Eq)]
pub struct Entry {
    pub name: Option<String>,
    pub value: Value,
    pub span: Span,
}

/// A node one level below the top.
#[derive(Debug, PartialEq, Eq)]
pub struct Child {
    pub name: String,
    pub name_span: Span,
    pub span: Span,
    pub entries: Vec<Entry>,
}

/// A node at the top of the document, with the nodes in its braces if it
/// has braces.
#[derive(Debug, PartialEq, Eq)]
pub struct Node {
    pub name: String,
    pub name_span: Span,
    pub span: Span,
    pub entries: Vec<Entry>,
    pub children: Option<Vec<Child>>,
}

/// A value as mathematical values.
pub enum ValueModel {
    String(Seq<char>),
    Integer(int),
    Float(u64),
    Bool(bool),
    Null,
}

/// An entry as mathematical values.
pub struct EntryModel {
    pub name: Option<Seq<char>>,
    pub value: ValueModel,
    pub span: Span,
}

/// A node one level below the top, as mathematical values.
pub struct ChildModel {
    pub name: Seq<char>,
    pub name_span: Span,
    pub span: Span,
    pub entries: Seq<EntryModel>,
}

/// A node at the top, as mathematical values.
pub struct NodeModel {
    pub name: Seq<char>,
    pub name_span: Span,
    pub span: Span,
    pub entries: Seq<EntryModel>,
    pub children: Option<Seq<ChildModel>>,
}

impl View for Value {
    type V = ValueModel;

    open spec fn view(&self) -> ValueModel {
        match self {
            Value::String(s) => ValueModel::String(s@),
            Value::Integer(i) => ValueModel::Integer(*i as int),
            Value::Float(bits) => ValueModel::Float(*bits),
            Value::Bool(b) => ValueModel::Bool(*b),
            Value::Null => ValueModel::Null,
        }
    }
}

impl View for Entry {
    type V = EntryModel;

    open spec fn view(&self) -> EntryModel {
        EntryModel { name: opt_view(self.name), value: self.value@, span: self.span }
    }
}

/// The models of a sequence of entries.
pub open spec fn entry_models(v: Seq<Entry>) -> Seq<EntryModel> {
    v.map_values(|e: Entry| e@)
}

impl View for Child {
    type V = ChildModel;

    open spec fn view(&self) -> ChildModel {
        ChildModel {
            name: self.name@,
            name_span: self.name_span,
            span: self.span,
            entries: entry_models(self.entries@),
        }
    }
}

/// The models of a sequence of child nodes.
pub open spec fn child_models(v: Seq<Child>) -> Seq<ChildModel> {
    v.map_values(|c: Child| c@)
}

impl View for Node {
    type V = NodeModel;

    open spec fn view(&self) -> NodeModel {
        NodeModel {
            name: self.name@,
            name_span: self.name_span,
            span: self.span,
            entries: entry_models(self.entries@),
            children: match self.children {
                Some(c) => Some(child_models(c@)),
                None => None,
            },
        }
    }
}

/// The models of a sequence of nodes.
pub open spec fn node_models(v: Seq<Node>) -> Seq<NodeModel> {
    v.map_values(|n: Node| n@)
}

/// A node seen from one level up: without what stands in its own braces.
pub open spec fn as_child(n: NodeModel) -> ChildModel {
    ChildModel { name: n.name, name_span: n.name_span, span: n.span, entries: n.entries }
}

/// The nodes of a document seen from one level up.
pub open spec fn as_children(nodes: Seq<NodeModel>) -> Seq<ChildModel> {
    nodes.map_values(|n: NodeModel| as_child(n))
}

impl ValueModel {
    /// The kind of this value.
    pub open spec fn kind(self) -> ValueKind {
        match self {
            ValueModel::String(_) => ValueKind::String,
            ValueModel::Integer(_) => ValueKind::Number,
            ValueModel::Float(_) => ValueKind::Float,
            ValueModel::Bool(_) => ValueKind::Boolean,
            ValueModel::Null => ValueKind::Null,
        }
    }
}

impl Value {
    /// The kind of this value.
    pub fn kind(&self) -> (k: ValueKind)
        ensures
            k == self@.kind(),
    {
        match self {
            Value::String(_) => ValueKind::String,
            Value::Integer(_) => ValueKind::Number,
            Value::Float(_) => ValueKind::Float,
            Value::Bool(_) => ValueKind::Boolean,
            Value::Null => ValueKind::Null,
        }
    }
}

impl ValueKind {
    /// The word for this kind in a diagnostic.
    pub fn name(&self) -> (s: &'static str)
        ensures
            s@ == match *self {
                ValueKind::String => "string"@,
                ValueKind::Number => "number"@,
                ValueKind::Float => "float"@,
                ValueKind::Boolean => "boolean"@,
                ValueKind::Null => "null"@,
            },
    {
        match self {
            ValueKind::String => "string",
            ValueKind::Number => "number",
            ValueKind::Float => "float",
            ValueKind::Boolean => "boolean",
            ValueKind::Null => "null",
        }
    }
}

/// `kdl::KdlDocument`: a parsed document, opaque to the proofs.
#[verifier::external_type_specification]
#[verifier::external_body]
pub struct ExKdlDocument(KdlDocument);

/// `kdl::KdlNode`: a parsed node, opaque to the proofs.
#[verifier::external_type_specification]
#[verifier::external_body]
pub struct ExKdlNode(KdlNode);

/// `kdl::KdlError`: why a text is no document, opaque to the proofs.
#[verifier::external_type_specification]
#[verifier::external_body]
pub struct ExKdlError(KdlError);

/// The top two levels of the document that a text parses to; `None` for a
/// text that is no KDL document.
pub uninterp spec fn kdl_document(text: Seq<char>) -> Option<Seq<NodeModel>>;

/// The nodes that a parsed document holds, in order.
pub uninterp spec fn doc_model(doc: KdlDocument) -> Seq<NodeModel>;

/// What a parsed node holds: its name, its entries and the nodes in its
/// braces.
pub uninterp spec fn node_model(node: KdlNode) -> NodeModel;

/// Parses a text as a KDL document.
///
/// Trusted: `KdlDocument::parse` returns a document for a well-formed text
/// and an error otherwise, and the same text always parses alike.
#[verifier::external_body]
pub(crate) fn kdl_parse(text: &str) -> (r: Result<KdlDocument, KdlError>)
    ensures
        match r {
            Ok(doc) => kdl_document(text@) == Some(doc_model(doc)),
            Err(_) => kdl_document(text@) is None,
        },
{
    KdlDocument::parse(text)
}

/// The node at position `index` of a document.
///
/// Trusted: `KdlDocument::nodes` is the slice of the document's nodes in
/// order; the result is `None` exactly past its end.
#[verifier::external_body]
pub(crate) fn doc_node(doc: &KdlDocument, index: usize) -> (r: Option<&KdlNode>)
    ensures
        match r {
            Some(node) => index < doc_model(*doc).len() && node_model(*node) == doc_model(
                *doc,
            )[index as int],
            None => index >= doc_model(*doc).len(),
        },
{
    doc.nodes().get(index)
}

/// The name of a node.
///
/// Trusted: `KdlNode::name` is the node's identifier and its `value` the
/// name's text.
#[verifier::external_body]
pub(crate) fn node_name(node: &KdlNode) -> (r: String)
    ensures
        r@ == node_model(*node).name,
{
    node.name().value().to_owned()
}

/// Where a node's name stands in the source.
///
/// Trusted: `KdlIdentifier::span` of the node's name.
#[verifier::external_body]
pub(crate) fn node_name_span(node: &KdlNode) -> (r: Span)
    ensures
        r == node_model(*node).name_span,
{
    let span = node.name().span();
    Span { offset: span.offset(), len: span.len() }
}

/// Where a node stands in the source.
///
/// Trusted: `KdlNode::span`.
#[verifier::external_body]
pub(crate) fn node_span(node: &KdlNode) -> (r: Span)
    ensures
        r == node_model(*node).span,
{
    let span = node.span();
    Span { offset: span.offset(), len: span.len() }
}

/// The entry at position `index` of a node, arguments and properties in the
/// order in which they were written, as plain values.
///
/// Trusted: `KdlNode::entries` is the slice of the node's entries in order,
/// and the result is `None` exactly past its end. `KdlEntry::name`,
/// `KdlEntry::value` and `KdlEntry::span` give the entry's parts; each
/// variant of `KdlValue` is carried over as it is, a float by its bits.
#[verifier::external_body]
pub(crate) fn node_entry(node: &KdlNode, index: usize) -> (r: Option<Entry>)
    ensures
        match r {
            Some(entry) => index < node_model(*node).entries.len() && entry@ == node_model(
                *node,
            ).entries[index as int],
            None => index >= node_model(*node).entries.len(),
        },
{
    let entry = node.entries().get(index)?;
    let value = match entry.value() {
        KdlValue::String(s) => Value::String(s.clone()),
        KdlValue::Integer(i) => Value::Integer(*i),
        KdlValue::Float(f) => Value::Float(f.to_bits()),
        KdlValue::Bool(b) => Value::Bool(*b),
        KdlValue::Null => Value::Null,
    };
    let span = entry.span();
    let name = entry.name().map(|n| n.value().to_owned());
    Some(Entry { name, value, span: Span { offset: span.offset(), len: span.len() } })
}

/// The document in a node's braces, if it has braces.
///
/// Trusted: `KdlNode::children` is the node's child document; the nodes of
/// that document are the node's children.
#[verifier::external_body]
pub(crate) fn node_children(node: &KdlNode) -> (r: Option<&KdlDocument>)
    ensures
        match r {
            Some(doc) => node_model(*node).children == Some(as_children(doc_model(*doc))),
            None => node_model(*node).children is None,
        },
{
    node.children()
}

/// The entries of a parsed node.
pub(crate) fn lower_entries(node: &KdlNode) -> (out: Vec<Entry>)
    ensures
        entry_models(out@) == node_model(*node).entries,
{
    let mut out: Vec<Entry> = Vec::new();
    let mut i: usize = 0;
    loop
        invariant
            i == out.len(),
            i <= node_model(*node).entries.len(),
            forall|k: int| 0 <= k < i ==> (#[trigger] out@[k])@ == node_model(*node).entries[k],
        ensures
            i == node_model(*node).entries.len(),
            i == out.len(),
            forall|k: int| 0 <= k < i ==> (#[trigger] out@[k])@ == node_model(*node).entries[k],
        decreases node_model(*node).entries.len() - i,
    {
        match node_entry(node, i) {
            Some(entry) => {
                out.push(entry);
                i = out.len();
            },
            None => {
                break;
            },
        }
    }
    assert(entry_models(out@) =~= node_model(*node).entries);
    out
}

/// A parsed node as a child: its name, its spans and its entries.
pub(crate) fn lower_child(node: &KdlNode) -> (out: Child)
    ensures
        out@ == as_child(node_model(*node)),
{
    Child {
        name: node_name(node),
        name_span: node_name_span(node),
        span: node_span(node),
        entries: lower_entries(node),
    }
}

/// The nodes of a child document.
pub(crate) fn lower_children(doc: &KdlDocument) -> (out: Vec<Child>)
    ensures
        child_models(out@) == as_children(doc_model(*doc)),
{
    let mut out: Vec<Child> = Vec::new();
    let mut i: usize = 0;
    loop
        invariant
            i == out.len(),
            i <= doc_model(*doc).len(),
            forall|k: int| 0 <= k < i ==> (#[trigger] out@[k])@ == as_child(doc_model(*doc)[k]),
        ensures
            i == doc_model(*doc).len(),
            i == out.len(),
            forall|k: int| 0 <= k < i ==> (#[trigger] out@[k])@ == as_child(doc_model(*doc)[k]),
        decreases doc_model(*doc).len() - i,
    {
        match doc_node(doc, i) {
            Some(node) => {
                out.push(lower_child(node));
                i = out.len();
            },
            None => {
                break;
            },
        }
    }
    assert(child_models(out@) =~= as_children(doc_model(*doc)));
    out
}

/// A parsed node at the top of a document.
pub(crate) fn lower_node(node: &KdlNode) -> (out: Node)
    ensures
        out@ == node_model(*node),
{
    let children = match node_children(node) {
        Some(doc) => Some(lower_children(doc)),
        None => None,
    };
    Node {
        name: node_name(node),
        name_span: node_name_span(node),
        span: node_span(node),
        entries: lower_entries(node),
        children,
    }
}

/// The nodes of a parsed document.
pub(crate) fn lower_document(doc: &KdlDocument) -> (out: Vec<Node>)
    ensures
        node_models(out@) == doc_model(*doc),
{
    let mut out: Vec<Node> = Vec::new();
    let mut i: usize = 0;
    loop
        invariant
            i == out.len(),
            i <= doc_model(*doc).len(),
            forall|k: int| 0 <= k < i ==> (#[trigger] out@[k])@ == doc_model(*doc)[k],
        ensures
            i == doc_model(*doc).len(),
            i == out.len(),
            forall|k: int| 0 <= k < i ==> (#[trigger] out@[k])@ == doc_model(*doc)[k],
        decreases doc_model(*doc).len() - i,
    {
        match doc_node(doc, i) {
            Some(node) => {
                out.push(lower_node(node));
                i = out.len();
            },
            None => {
                break;
            },
        }
    }
    assert(node_models(out@) =~= doc_model(*doc));
    out
}

/// Reads a text as a configuration document. The error is the parser's own.
pub fn read_document(text: &str) -> (r: Result<Vec<Node>, KdlError>)
    ensures
        match r {
            Ok(nodes) => kdl_document(text@) == Some(node_models(nodes@)),
            Err(_) => kdl_document(text@) is None,
        },
{
    match kdl_parse(text) {
        Ok(doc) => Ok(lower_document(&doc)),
        Err(e) => Err(e),
    }
}

} // verus!
