//! Reading the replies of the services, which are JSON documents.
//!
//! The documents are read by `serde_json`. What it finds is handed out one
//! place at a time, as a [`JsonNode`] of plain values; the rest of the library
//! never sees a `serde_json` value.

use vstd::prelude::*;

verus! {

/// `serde_json::Value`, carried through as it is: nothing is claimed of what
/// a value is made of.
#[verifier::external_type_specification]
#[verifier::external_body]
pub struct ExJsonValue(serde_json::Value);

/// What stands at one place of a document.
#[derive(Clone, Debug)]
pub enum JsonNode {
    /// `null`.
    Null,
    /// `true` or `false`.
    Bool(bool),
    /// A number, as `serde_json` writes it.
    Number(String),
    /// A string, without its quotes and with its escapes resolved.
    Text(String),
    /// An array, with the number of its elements.
    Array(usize),
    /// An object.
    Object,
}

/// A [`JsonNode`] over mathematical values.
pub enum NodeView {
    Null,
    Bool(bool),
    Number(Seq<char>),
    Text(Seq<char>),
    Array(nat),
    Object,
}

impl View for JsonNode {
    type V = NodeView;

    open spec fn view(&self) -> NodeView {
        match self {
            JsonNode::Null => NodeView::Null,
            JsonNode::Bool(b) => NodeView::Bool(*b),
            JsonNode::Number(text) => NodeView::Number(text@),
            JsonNode::Text(text) => NodeView::Text(text@),
            JsonNode::Array(len) => NodeView::Array(*len as nat),
            JsonNode::Object => NodeView::Object,
        }
    }
}

/// What a value of `serde_json` holds: for each JSON Pointer that leads
/// somewhere in it, what stands there. The empty pointer leads to the value
/// itself.
pub uninterp spec fn json_nodes(value: serde_json::Value) -> Map<Seq<char>, NodeView>;

/// What `serde_json` reads from `text`: the contents of the value that it
/// gives, or `None` where it refuses the text.
pub uninterp spec fn json_reading(text: Seq<char>) -> Option<Map<Seq<char>, NodeView>>;

/// Calls `serde_json::from_str` for a `serde_json::Value`. The contract
/// claims that whether the text is accepted, and what the value then holds,
/// depend on the text alone; it gives both a name and says nothing else of
/// them.
#[verifier::external_body]
fn read_value(text: &str) -> (r: Option<serde_json::Value>)
    ensures
        match r {
            Some(value) => json_reading(text@) == Some(json_nodes(value)),
            None => json_reading(text@) is None,
        },
{
    serde_json::from_str::<serde_json::Value>(text).ok()
}

/// Calls `serde_json::Value::pointer` and tells the variants of what it
/// finds apart; a number is written out by its `Display`. The contract
/// claims that the answer is what the value holds at `pointer`, and `None`
/// exactly where the pointer leads nowhere.
#[verifier::external_body]
fn value_node(value: &serde_json::Value, pointer: &str) -> (r: Option<JsonNode>)
    ensures
        match r {
            Some(node) => json_nodes(*value).contains_key(pointer@) && json_nodes(*value)[pointer@]
                == node@,
            None => !json_nodes(*value).contains_key(pointer@),
        },
{
    match value.pointer(pointer) {
        None => None,
        Some(serde_json::Value::Null) => Some(JsonNode::Null),
        Some(serde_json::Value::Bool(b)) => Some(JsonNode::Bool(*b)),
        Some(serde_json::Value::Number(n)) => Some(JsonNode::Number(n.to_string())),
        Some(serde_json::Value::String(s)) => Some(JsonNode::Text(s.clone())),
        Some(serde_json::Value::Array(a)) => Some(JsonNode::Array(a.len())),
        Some(serde_json::Value::Object(_)) => Some(JsonNode::Object),
    }
}

/// What a document holds at `pointer`, if anything.
pub open spec fn node_at(nodes: Map<Seq<char>, NodeView>, pointer: Seq<char>) -> Option<NodeView> {
    if nodes.contains_key(pointer) {
        Some(nodes[pointer])
    } else {
        None
    }
}

/// The string that a document holds at `pointer`; `None` where nothing
/// stands there, or something that is not a string.
pub open spec fn text_at(nodes: Map<Seq<char>, NodeView>, pointer: Seq<char>) -> Option<Seq<char>> {
    match node_at(nodes, pointer) {
        Some(NodeView::Text(text)) => Some(text),
        _ => None,
    }
}

/// The number that a document holds at `pointer`, as text; `None` where
/// nothing stands there, or something that is not a number.
pub open spec fn number_at(nodes: Map<Seq<char>, NodeView>, pointer: Seq<char>) -> Option<
    Seq<char>,
> {
    match node_at(nodes, pointer) {
        Some(NodeView::Number(text)) => Some(text),
        _ => None,
    }
}

/// Whether a document holds an object at `pointer`.
pub open spec fn object_at(nodes: Map<Seq<char>, NodeView>, pointer: Seq<char>) -> bool {
    node_at(nodes, pointer) == Some(NodeView::Object)
}

/// How many elements the array has that a document holds at `pointer`; none
/// where nothing stands there, or something that is not an array.
pub open spec fn array_len_at(nodes: Map<Seq<char>, NodeView>, pointer: Seq<char>) -> nat {
    match node_at(nodes, pointer) {
        Some(NodeView::Array(len)) => len,
        _ => 0,
    }
}

/// A JSON document that was read.
pub struct Document {
    root: serde_json::Value,
}

impl View for Document {
    type V = Map<Seq<char>, NodeView>;

    /// What the document holds at each JSON Pointer that leads somewhere.
    closed spec fn view(&self) -> Map<Seq<char>, NodeView> {
        json_nodes(self.root)
    }
}

impl Document {
    /// Reads `text` as a JSON document; `None` where it is none.
    pub fn parse(text: &str) -> (r: Option<Document>)
        ensures
            match r {
                Some(document) => json_reading(text@) == Some(document@),
                None => json_reading(text@) is None,
            },
    {
        match read_value(text) {
            Some(root) => Some(Document { root }),
            None => None,
        }
    }

    /// What stands at `pointer`, a JSON Pointer such as `/orders/0/price`.
    pub fn node(&self, pointer: &str) -> (r: Option<JsonNode>)
        ensures
            match r {
                Some(node) => node_at(self@, pointer@) == Some(node@),
                None => node_at(self@, pointer@) is None,
            },
    {
        value_node(&self.root, pointer)
    }

    /// The string at `pointer`.
    pub fn text(&self, pointer: &str) -> (r: Option<String>)
        ensures
            match r {
                Some(text) => text_at(self@, pointer@) == Some(text@),
                None => text_at(self@, pointer@) is None,
            },
    {
        match self.node(pointer) {
            Some(JsonNode::Text(text)) => Some(text),
            _ => None,
        }
    }

    /// The number at `pointer`, as text.
    pub fn number(&self, pointer: &str) -> (r: Option<String>)
        ensures
            match r {
                Some(text) => number_at(self@, pointer@) == Some(text@),
                None => number_at(self@, pointer@) is None,
            },
    {
        match self.node(pointer) {
            Some(JsonNode::Number(text)) => Some(text),
            _ => None,
        }
    }

    /// Whether an object stands at `pointer`.
    pub fn has_object(&self, pointer: &str) -> (r: bool)
        ensures
            r == object_at(self@, pointer@),
    {
        match self.node(pointer) {
            Some(JsonNode::Object) => true,
            _ => false,
        }
    }

    /// The length of the array at `pointer`; zero where there is no array.
    pub fn array_len(&self, pointer: &str) -> (r: usize)
        ensures
            r == array_len_at(self@, pointer@),
    {
        match self.node(pointer) {
            Some(JsonNode::Array(len)) => len,
            _ => 0,
        }
    }
}

} // verus!
