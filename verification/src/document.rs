//! A parsed document as a tree of values, each with the byte range it was
//! read from. The grammar is TOML, and the `toml` crate does the parsing.

use crate::span::SourceSpan;
use toml::de::{DeTable, DeValue};
use vstd::prelude::*;

verus! {

/// What a node of the tree holds. Numbers and dates are told apart from
/// the rest but not read.
#[derive(Debug)]
pub enum Value {
    String(String),
    Integer,
    Float,
    Boolean(bool),
    Datetime,
    Array(Vec<Node>),
    Table(Vec<Entry>),
}

/// A value and the range of the text it was read from.
#[derive(Debug)]
pub struct Node {
    pub value: Value,
    pub span: SourceSpan,
}

/// An entry of a table: the key, the range the key was read from, and the
/// value under it.
#[derive(Debug)]
pub struct Entry {
    pub key: String,
    pub key_span: SourceSpan,
    pub node: Node,
}

/// Why a text is no document: the parser's message and, where it gave one,
/// the range it objects to.
#[derive(Debug)]
pub struct SyntaxError {
    pub message: String,
    pub span: Option<SourceSpan>,
}

/// `toml::Spanned`, a value with the range it was read from.
#[verifier::external_type_specification]
#[verifier::external_body]
#[verifier::reject_recursive_types(T)]
pub struct ExSpanned<T>(toml::Spanned<T>);

/// `toml::de::DeValue`, a value of a parsed document.
#[verifier::external_type_specification]
#[verifier::external_body]
pub struct ExDeValue<'i>(DeValue<'i>);

/// `toml::map::Map`, the table of a parsed document.
#[verifier::external_type_specification]
#[verifier::external_body]
#[verifier::reject_recursive_types(K)]
#[verifier::reject_recursive_types(V)]
pub struct ExTomlMap<K, V>(toml::map::Map<K, V>);

/// What `toml::de::DeTable::parse` makes of a text: the document as a tree
/// whose root is a table, or the reason the text is no document.
pub uninterp spec fn toml_document(text: Seq<char>) -> Result<Node, SyntaxError>;

/// Carries a `toml::de::DeValue` over into a `Node`, variant by variant,
/// with the range that `Spanned::span` reports.
#[verifier::external_body]
fn lift_value(v: &toml::Spanned<DeValue<'_>>) -> Node {
    let value = match v.get_ref() {
        DeValue::String(s) => Value::String(s.to_string()),
        DeValue::Integer(_) => Value::Integer,
        DeValue::Float(_) => Value::Float,
        DeValue::Boolean(b) => Value::Boolean(*b),
        DeValue::Datetime(_) => Value::Datetime,
        DeValue::Array(a) => Value::Array(a.iter().map(lift_value).collect()),
        DeValue::Table(t) => Value::Table(lift_table(t)),
    };
    Node { value, span: SourceSpan { start: v.span().start, end: v.span().end } }
}

/// Carries the entries of a `toml::de::DeTable` over in the order in which
/// `Map::iter` yields them, which is the order of the text.
#[verifier::external_body]
fn lift_table(t: &DeTable<'_>) -> Vec<Entry> {
    let mut entries = Vec::new();
    for (k, v) in t.iter() {
        let key_span = SourceSpan { start: k.span().start, end: k.span().end };
        entries.push(Entry { key: k.get_ref().to_string(), key_span, node: lift_value(v) });
    }
    entries
}

/// Calls `toml::de::DeTable::parse`. Trusted: the outcome depends on the
/// text alone. The tree and the error are carried over one for one.
#[verifier::external_body]
pub(crate) fn parse_document(text: &str) -> (parsed: Result<Node, SyntaxError>)
    ensures
        parsed == toml_document(text@),
{
    match DeTable::parse(text) {
        Ok(doc) => {
            let span = SourceSpan { start: doc.span().start, end: doc.span().end };
            Ok(Node { value: Value::Table(lift_table(doc.get_ref())), span })
        },
        Err(e) => {
            let span = e.span().map(|r| SourceSpan { start: r.start, end: r.end });
            Err(SyntaxError { message: e.message().to_string(), span })
        },
    }
}

/// Checks the ranges of a list of nodes.
fn nodes_fit(items: &Vec<Node>, len: usize) -> (ok: bool)
    ensures
        ok == forall|i: int| 0 <= i < items.len() ==> (#[trigger] items[i]).fits(len as nat),
    decreases items, 0nat,
{
    let mut i: usize = 0;
    while i < items.len()
        invariant
            i <= items.len(),
            forall|k: int| 0 <= k < i ==> (#[trigger] items[k]).fits(len as nat),
        decreases items.len() - i,
    {
        if !items[i].check_fits(len) {
            return false;
        }
        i = i + 1;
    }
    true
}

/// Checks the ranges of the entries of a table.
fn entries_fit(entries: &Vec<Entry>, len: usize) -> (ok: bool)
    ensures
        ok == forall|i: int|
            0 <= i < entries.len() ==> (#[trigger] entries[i]).key_span.fits(len as nat) && entries[i].node.fits(
                len as nat,
            ),
    decreases entries, 0nat,
{
    let mut i: usize = 0;
    while i < entries.len()
        invariant
            i <= entries.len(),
            forall|k: int|
                0 <= k < i ==> (#[trigger] entries[k]).key_span.fits(len as nat) && entries[k].node.fits(
                    len as nat,
                ),
        decreases entries.len() - i,
    {
        if !entries[i].key_span.check_fits(len) || !entries[i].node.check_fits(len) {
            return false;
        }
        i = i + 1;
    }
    true
}

impl Node {
    /// Checks that every range in the tree is well ordered and ends inside
    /// a text of `len` bytes.
    pub fn check_fits(&self, len: usize) -> (ok: bool)
        ensures
            ok == self.fits(len as nat),
        decreases self, 1nat,
    {
        if !self.span.check_fits(len) {
            return false;
        }
        match &self.value {
            Value::Array(items) => nodes_fit(items, len),
            Value::Table(entries) => entries_fit(entries, len),
            _ => true,
        }
    }

    /// Whether every range in the tree is well ordered and ends inside a
    /// text of `len` bytes.
    pub open spec fn fits(self, len: nat) -> bool
        decreases self,
    {
        &&& self.span.fits(len)
        &&& match self.value {
            Value::Array(items) => forall|i: int|
                0 <= i < items.len() ==> (#[trigger] items[i]).fits(len),
            Value::Table(entries) => forall|i: int|
                0 <= i < entries.len() ==> (#[trigger] entries[i]).key_span.fits(len)
                    && entries[i].node.fits(len),
            _ => true,
        }
    }
}

} // verus!
