//! Structured documents: what the TOML and JSON files that Cargo writes hold.

use vstd::prelude::*;

use crate::text::same;

verus! {

/// `serde_json::Value`, read only through [`json_node`].
#[verifier::external_type_specification]
#[verifier::external_body]
pub struct ExJsonValue(serde_json::Value);

/// `toml::Value`, read only through [`toml_node`].
#[verifier::external_type_specification]
#[verifier::external_body]
pub struct ExTomlValue(toml::Value);

/// A value in a document.
#[derive(Debug)]
pub enum Node {
    /// A string.
    Text(String),
    /// A truth value.
    Bool(bool),
    /// An array.
    List(Vec<Node>),
    /// A table or object: its entries in the order in which the document hands
    /// them out.
    Table(Vec<(String, Node)>),
    /// Anything else: numbers, dates, null.
    Other,
}

/// What a JSON text holds, or the message that says what is wrong with it.
pub uninterp spec fn json_document(text: Seq<char>) -> Result<Node, Seq<char>>;

/// What a TOML text holds, or the message that says what is wrong with it.
pub uninterp spec fn toml_document(text: Seq<char>) -> Result<Node, Seq<char>>;

/// What a JSON value holds.
pub uninterp spec fn json_contents(value: serde_json::Value) -> Node;

/// What a TOML value holds.
pub uninterp spec fn toml_contents(value: toml::Value) -> Node;

/// The JSON text that `serde_json` writes for an object with string members.
pub uninterp spec fn json_object_written(members: Seq<(Seq<char>, Seq<char>)>) -> Seq<char>;

/// The first entry with the given key.
pub open spec fn entry(entries: Seq<(String, Node)>, key: Seq<char>) -> Option<Node>
    decreases entries.len(),
{
    if entries.len() == 0 {
        None
    } else if entries[0].0@ == key {
        Some(entries[0].1)
    } else {
        entry(entries.skip(1), key)
    }
}

/// The member of a table with the given key; anything but a table has none.
pub open spec fn member(node: Node, key: Seq<char>) -> Option<Node> {
    match node {
        Node::Table(entries) => entry(entries@, key),
        _ => None,
    }
}

/// The text of a string.
pub open spec fn text_of(node: Option<Node>) -> Option<Seq<char>> {
    match node {
        Some(Node::Text(text)) => Some(text@),
        _ => None,
    }
}

/// The truth value that a node holds.
pub open spec fn bool_of(node: Option<Node>) -> Option<bool> {
    match node {
        Some(Node::Bool(value)) => Some(value),
        _ => None,
    }
}

/// The entries of a table; anything else has none.
pub open spec fn entries_of(node: Option<Node>) -> Seq<(String, Node)> {
    match node {
        Some(Node::Table(entries)) => entries@,
        _ => Seq::empty(),
    }
}

/// The members of an object of strings, as texts.
pub open spec fn member_texts(members: Seq<(String, String)>) -> Seq<(Seq<char>, Seq<char>)> {
    Seq::new(members.len(), |i: int| (members[i].0@, members[i].1@))
}

/// `serde_json::from_str` for a `serde_json::Value`: the value, or the error's
/// displayed text. What the value holds is named by the text alone.
#[verifier::external_body]
fn json_parse(text: &str) -> (r: Result<serde_json::Value, String>)
    ensures
        json_document(text@) == (match r {
            Ok(value) => Ok::<Node, Seq<char>>(json_contents(value)),
            Err(message) => Err(message@),
        }),
{
    serde_json::from_str(text).map_err(|error: serde_json::Error| error.to_string())
}

/// What a `serde_json::Value` holds, variant by variant: numbers and null are
/// [`Node::Other`], and an object's members come in the order in which
/// `serde_json::Map` hands them out. The result is named.
#[verifier::external_body]
fn json_node(value: serde_json::Value) -> (r: Node)
    ensures
        r == json_contents(value),
{
    match value {
        serde_json::Value::Null => Node::Other,
        serde_json::Value::Bool(value) => Node::Bool(value),
        serde_json::Value::Number(_) => Node::Other,
        serde_json::Value::String(text) => Node::Text(text),
        serde_json::Value::Array(items) => Node::List(items.into_iter().map(json_node).collect()),
        serde_json::Value::Object(members) => Node::Table(
            members.into_iter().map(|(key, value)| (key, json_node(value))).collect(),
        ),
    }
}

/// `str::parse` for a `toml::Table`: the document's table as a value, or the
/// error's displayed text. What the table holds is named by the text alone.
#[verifier::external_body]
fn toml_parse(text: &str) -> (r: Result<toml::Value, String>)
    ensures
        toml_document(text@) == (match r {
            Ok(value) => Ok::<Node, Seq<char>>(toml_contents(value)),
            Err(message) => Err(message@),
        }),
{
    match text.parse::<toml::Table>() {
        Ok(table) => Ok(toml::Value::Table(table)),
        Err(error) => Err(error.to_string()),
    }
}

/// What a `toml::Value` holds, variant by variant: numbers and dates are
/// [`Node::Other`], and a table's members come in the order in which
/// `toml::Table` hands them out. The result is named.
#[verifier::external_body]
fn toml_node(value: toml::Value) -> (r: Node)
    ensures
        r == toml_contents(value),
{
    match value {
        toml::Value::String(text) => Node::Text(text),
        toml::Value::Integer(_) => Node::Other,
        toml::Value::Float(_) => Node::Other,
        toml::Value::Boolean(value) => Node::Bool(value),
        toml::Value::Datetime(_) => Node::Other,
        toml::Value::Array(items) => Node::List(items.into_iter().map(toml_node).collect()),
        toml::Value::Table(members) => Node::Table(
            members.into_iter().map(|(key, value)| (key, toml_node(value))).collect(),
        ),
    }
}

/// `serde_json::Value::to_string` for an object of strings. The text is named,
/// and it parses back to an object with the same members.
#[verifier::external_body]
pub(crate) fn write_json_object(members: Vec<(String, String)>) -> (r: String)
    requires
        forall|i: int, j: int|
            0 <= i < j < members@.len() ==> (#[trigger] members@[i]).0@ != (
            #[trigger] members@[j]).0@,
    ensures
        r@ == json_object_written(member_texts(members@)),
        json_document(r@) is Ok,
        forall|i: int|
            0 <= i < members@.len() ==> text_of(
                member(json_document(r@)->Ok_0, (#[trigger] members@[i]).0@),
            ) == Some(members@[i].1@),
{
    let object: serde_json::Map<String, serde_json::Value> = members.into_iter().map(
        |(key, text)| (key, serde_json::Value::String(text)),
    ).collect();
    serde_json::Value::Object(object).to_string()
}

/// Reads a JSON text.
pub fn parse_json(text: &str) -> (r: Result<Node, String>)
    ensures
        (match r {
            Ok(node) => Ok(node),
            Err(message) => Err(message@),
        }) == json_document(text@),
{
    match json_parse(text) {
        Ok(value) => Ok(json_node(value)),
        Err(message) => Err(message),
    }
}

/// Reads a TOML text.
pub fn parse_toml(text: &str) -> (r: Result<Node, String>)
    ensures
        (match r {
            Ok(node) => Ok(node),
            Err(message) => Err(message@),
        }) == toml_document(text@),
{
    match toml_parse(text) {
        Ok(value) => Ok(toml_node(value)),
        Err(message) => Err(message),
    }
}

impl Node {
    /// The member of a table with the given key.
    pub fn get(&self, key: &str) -> (r: Option<&Node>)
        ensures
            (match r {
                Some(node) => Some(*node),
                None => None,
            }) == member(*self, key@),
    {
        match self {
            Node::Table(entries) => {
                let mut i: usize = 0;
                assert(entries@.skip(0) =~= entries@);
                while i < entries.len()
                    invariant
                        i <= entries@.len(),
                        member(*self, key@) == entry(entries@, key@),
                        entry(entries@, key@) == entry(entries@.skip(i as int), key@),
                    decreases entries@.len() - i,
                {
                    assert(entries@.skip(i as int).skip(1) =~= entries@.skip(i + 1));
                    if same(entries[i].0.as_str(), key) {
                        return Some(&entries[i].1);
                    }
                    i = i + 1;
                }
                None
            },
            _ => None,
        }
    }

    /// The text of the string member with the given key.
    pub fn text_at(&self, key: &str) -> (r: Option<&String>)
        ensures
            (match r {
                Some(text) => Some(text@),
                None => None,
            }) == text_of(member(*self, key@)),
    {
        match self.get(key) {
            Some(Node::Text(text)) => Some(text),
            _ => None,
        }
    }

    /// The truth value of the member with the given key.
    pub fn bool_at(&self, key: &str) -> (r: Option<bool>)
        ensures
            r == bool_of(member(*self, key@)),
    {
        match self.get(key) {
            Some(Node::Bool(value)) => Some(*value),
            _ => None,
        }
    }
}

} // verus!
