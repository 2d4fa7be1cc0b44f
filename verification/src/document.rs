//! Translation documents: a nested message tree with the document's
//! locale fields, loaded from TOML text.
//!
//! The TOML parser is a black box behind a trusted wrapper that turns the
//! file text into a [`MessageNode`] tree of plain strings; everything
//! after that point — the required-field checks, the fallback default,
//! and the key-path walk — is verified.

use crate::strutil::str_eq;
use vstd::prelude::*;

verus! {

/// One node of a translation document's tree.
pub enum MessageNode {
    /// A string value: template text.
    Text(String),
    /// Any other scalar (integer, boolean, date, array), in its
    /// serialized form.
    Scalar(String),
    /// A table: its serialized form (returned when a key path stops on
    /// it) and its entries in the document's order.
    Table(String, Vec<(String, MessageNode)>),
}

// ---------------------------------------------------------------------------
// Spec: tree lookup and key-path walk
// ---------------------------------------------------------------------------

/// The value of the first entry whose key is `key`.
pub open spec fn entry_lookup(es: Seq<(String, MessageNode)>, key: Seq<char>) -> Option<
    MessageNode,
>
    decreases es.len(),
{
    if es.len() == 0 {
        None
    } else if es[0].0@ == key {
        Some(es[0].1)
    } else {
        entry_lookup(es.drop_first(), key)
    }
}

/// The string a node resolves to when a key path ends on it: the text of
/// a string value, or the serialized form of anything else.
pub open spec fn node_text(n: MessageNode) -> Seq<char> {
    match n {
        MessageNode::Text(s) => s@,
        MessageNode::Scalar(s) => s@,
        MessageNode::Table(r, _) => r@,
    }
}

/// The outcome of walking a key path: the resolved text, or the index of
/// the first segment that did not match.
pub ghost enum WalkOutcome {
    Found(Seq<char>),
    Missing(int),
}

/// Walks `segs[i..]` through the tree: at each step the current node must
/// be a table with an entry for the segment; a path that ends resolves to
/// the current node's text.
pub open spec fn walk_from(node: MessageNode, segs: Seq<Seq<char>>, i: int) -> WalkOutcome
    decreases segs.len() - i,
    when 0 <= i <= segs.len()
{
    if i == segs.len() {
        WalkOutcome::Found(node_text(node))
    } else {
        match node {
            MessageNode::Table(_, es) => match entry_lookup(es@, segs[i]) {
                Some(child) => walk_from(child, segs, i + 1),
                None => WalkOutcome::Missing(i),
            },
            _ => WalkOutcome::Missing(i),
        }
    }
}

// ---------------------------------------------------------------------------
// Spec: the document schema
// ---------------------------------------------------------------------------

/// The text of a top-level string field, if the tree is a table and holds
/// one under that name.
pub open spec fn field_text(tree: MessageNode, name: Seq<char>) -> Option<Seq<char>> {
    match tree {
        MessageNode::Table(_, es) => match entry_lookup(es@, name) {
            Some(MessageNode::Text(s)) => Some(s@),
            _ => None,
        },
        _ => None,
    }
}

/// The `messages` table of the document, if present.
pub open spec fn spec_messages(tree: MessageNode) -> Option<MessageNode> {
    match tree {
        MessageNode::Table(_, es) => match entry_lookup(es@, "messages"@) {
            Some(m) => if m is Table {
                Some(m)
            } else {
                None
            },
            None => None,
        },
        _ => None,
    }
}

/// The document's fallback locale string; absent means empty, which the
/// resolver treats as "no fallback".
pub open spec fn spec_fallback(tree: MessageNode) -> Seq<char> {
    match field_text(tree, "fallback"@) {
        Some(s) => s,
        None => Seq::<char>::empty(),
    }
}

/// A valid document: a table with string fields `language`, `territory`
/// and `modifier` and a table `messages`.  The `fallback` field is
/// optional.
pub open spec fn spec_document_ok(tree: MessageNode) -> bool {
    &&& field_text(tree, "language"@) is Some
    &&& field_text(tree, "territory"@) is Some
    &&& field_text(tree, "modifier"@) is Some
    &&& spec_messages(tree) is Some
}

// ---------------------------------------------------------------------------
// Trusted: the TOML parser
// ---------------------------------------------------------------------------

#[verifier::external_type_specification]
#[verifier::external_body]
pub struct ExTomlValue(toml::Value);

/// The message tree a TOML text parses to, or `None` when the text is not
/// a valid TOML document.
pub uninterp spec fn toml_tree_of(text: Seq<char>) -> Option<MessageNode>;

/// Relies on toml's parser (`str::parse::<toml::Table>`): whether the
/// text is valid TOML, and the tree of values it holds, depend on the
/// text alone.
#[verifier::external_body]
fn parse_toml_text(text: &str) -> (r: Option<MessageNode>)
    ensures
        r == toml_tree_of(text@),
{
    match text.parse::<toml::Table>() {
        Ok(t) => Some(toml_to_node(&toml::Value::Table(t))),
        Err(_) => None,
    }
}

/// Relies on `toml::Value`'s variants and its `Display`: a value is a
/// string, a table, or another scalar, and `Display` gives its serialized
/// form.  Recursive conversion helper of `parse_toml_text`.
#[verifier::external_body]
fn toml_to_node(v: &toml::Value) -> MessageNode {
    match v {
        toml::Value::String(s) => MessageNode::Text(s.clone()),
        toml::Value::Table(t) => {
            let mut es: Vec<(String, MessageNode)> = Vec::new();
            for (k, w) in t.iter() {
                es.push((k.clone(), toml_to_node(w)));
            }
            MessageNode::Table(v.to_string(), es)
        },
        other => MessageNode::Scalar(other.to_string()),
    }
}

// ---------------------------------------------------------------------------
// Exec: lookup, walk, and the document type
// ---------------------------------------------------------------------------

/// Finds the entry for `key` among a table's entries.
pub fn find_entry<'a>(es: &'a Vec<(String, MessageNode)>, key: &str) -> (r: Option<
    &'a MessageNode,
>)
    ensures
        match r {
            Some(n) => entry_lookup(es@, key@) == Some(*n),
            None => entry_lookup(es@, key@) is None,
        },
{
    assert(es@.skip(0) =~= es@);
    let mut i: usize = 0;
    while i < es.len()
        invariant
            i <= es.len(),
            entry_lookup(es@, key@) == entry_lookup(es@.skip(i as int), key@),
        decreases es.len() - i,
    {
        assert(es@.skip(i as int)[0] == es@[i as int]);
        if str_eq(es[i].0.as_str(), key) {
            return Some(&es[i].1);
        }
        assert(es@.skip(i as int).drop_first() =~= es@.skip(i as int + 1));
        i += 1;
    }
    None
}

/// The position of the first entry whose key is `key`.
pub fn find_entry_idx(es: &Vec<(String, MessageNode)>, key: &str) -> (r: Option<usize>)
    ensures
        match r {
            Some(i) => i < es@.len() && entry_lookup(es@, key@) == Some(es@[i as int].1),
            None => entry_lookup(es@, key@) is None,
        },
{
    assert(es@.skip(0) =~= es@);
    let mut i: usize = 0;
    while i < es.len()
        invariant
            i <= es.len(),
            entry_lookup(es@, key@) == entry_lookup(es@.skip(i as int), key@),
        decreases es.len() - i,
    {
        assert(es@.skip(i as int)[0] == es@[i as int]);
        if str_eq(es[i].0.as_str(), key) {
            return Some(i);
        }
        assert(es@.skip(i as int).drop_first() =~= es@.skip(i as int + 1));
        i += 1;
    }
    None
}

/// The outcome of walking a key path through a tree.
pub enum WalkResult {
    /// The resolved template text.
    Found(String),
    /// The index of the first path segment that had no matching entry.
    MissingAt(usize),
}

/// Walks the segments of `path` through the tree rooted at `node`.
pub fn resolve_path(node: &MessageNode, path: &Vec<String>) -> (r: WalkResult)
    ensures
        ({
            let segs = path@.map_values(|t: String| t@);
            match r {
                WalkResult::Found(s) => walk_from(*node, segs, 0) == WalkOutcome::Found(s@),
                WalkResult::MissingAt(i) => walk_from(*node, segs, 0) == WalkOutcome::Missing(
                    i as int,
                ) && i < path@.len(),
            }
        }),
{
    let ghost segs = path@.map_values(|t: String| t@);
    let mut cur: &MessageNode = node;
    let mut i: usize = 0;
    while i < path.len()
        invariant
            i <= path.len(),
            segs == path@.map_values(|t: String| t@),
            walk_from(*node, segs, 0) == walk_from(*cur, segs, i as int),
        decreases path.len() - i,
    {
        assert(segs[i as int] == path@[i as int]@);
        match cur {
            MessageNode::Table(_, es) => {
                match find_entry(es, path[i].as_str()) {
                    Some(child) => {
                        cur = child;
                    },
                    None => {
                        return WalkResult::MissingAt(i);
                    },
                }
            },
            _ => {
                return WalkResult::MissingAt(i);
            },
        }
        i += 1;
    }
    match cur {
        MessageNode::Text(s) => WalkResult::Found(s.clone()),
        MessageNode::Scalar(s) => WalkResult::Found(s.clone()),
        MessageNode::Table(rendered, _) => WalkResult::Found(rendered.clone()),
    }
}

/// A loaded translation document: its locale fields, its fallback locale
/// (empty when the document offers none), and its message tree.
pub struct LanguageToml {
    language: String,
    territory: String,
    modifier: String,
    fallback: String,
    messages: MessageNode,
}

/// The mathematical value of a document.
pub ghost struct DocView {
    pub language: Seq<char>,
    pub territory: Seq<char>,
    pub modifier: Seq<char>,
    pub fallback: Seq<char>,
    pub messages: MessageNode,
}

impl View for LanguageToml {
    type V = DocView;

    closed spec fn view(&self) -> DocView {
        DocView {
            language: self.language@,
            territory: self.territory@,
            modifier: self.modifier@,
            fallback: self.fallback@,
            messages: self.messages,
        }
    }
}

impl LanguageToml {
    /// Builds a document from its parts.
    pub fn new(
        language: String,
        territory: String,
        modifier: String,
        fallback: String,
        messages: MessageNode,
    ) -> (r: LanguageToml)
        ensures
            r@.language == language@,
            r@.territory == territory@,
            r@.modifier == modifier@,
            r@.fallback == fallback@,
            r@.messages == messages,
    {
        LanguageToml { language, territory, modifier, fallback, messages }
    }

    /// Parses TOML text into a document.  Returns `None` when the text is
    /// not valid TOML, when one of the string fields `language`,
    /// `territory` or `modifier` is missing, or when the `messages` table
    /// is missing; a missing `fallback` defaults to the empty string.
    pub fn parse(text: &str) -> (r: Option<LanguageToml>)
        ensures
            match toml_tree_of(text@) {
                None => r is None,
                Some(tree) => {
                    if spec_document_ok(tree) {
                        r matches Some(d) && d@.language == field_text(tree, "language"@)->0
                            && d@.territory == field_text(tree, "territory"@)->0 && d@.modifier
                            == field_text(tree, "modifier"@)->0 && d@.fallback == spec_fallback(
                            tree,
                        ) && d@.messages == spec_messages(tree)->0
                    } else {
                        r is None
                    }
                },
            },
    {
        let tree = match parse_toml_text(text) {
            Some(t) => t,
            None => {
                return None;
            },
        };
        match tree {
            MessageNode::Table(_, mut es) => {
                let language = match find_entry(&es, "language") {
                    Some(MessageNode::Text(s)) => s.clone(),
                    _ => {
                        return None;
                    },
                };
                let territory = match find_entry(&es, "territory") {
                    Some(MessageNode::Text(s)) => s.clone(),
                    _ => {
                        return None;
                    },
                };
                let modifier = match find_entry(&es, "modifier") {
                    Some(MessageNode::Text(s)) => s.clone(),
                    _ => {
                        return None;
                    },
                };
                let fallback = match find_entry(&es, "fallback") {
                    Some(MessageNode::Text(s)) => s.clone(),
                    _ => String::new(),
                };
                let midx = match find_entry_idx(&es, "messages") {
                    Some(i) => i,
                    None => {
                        return None;
                    },
                };
                match &es[midx].1 {
                    MessageNode::Table(_, _) => {},
                    _ => {
                        return None;
                    },
                }
                let pair = es.remove(midx);
                let messages = pair.1;
                Some(LanguageToml { language, territory, modifier, fallback, messages })
            },
            _ => None,
        }
    }

    pub fn get_language(&self) -> (r: String)
        ensures
            r@ == self@.language,
    {
        self.language.clone()
    }

    pub fn get_territory(&self) -> (r: String)
        ensures
            r@ == self@.territory,
    {
        self.territory.clone()
    }

    pub fn get_modifier(&self) -> (r: String)
        ensures
            r@ == self@.modifier,
    {
        self.modifier.clone()
    }

    pub fn get_fallback(&self) -> (r: String)
        ensures
            r@ == self@.fallback,
    {
        self.fallback.clone()
    }

    /// The message tree.
    pub fn get_messages(&self) -> (r: &MessageNode)
        ensures
            *r == self@.messages,
    {
        &self.messages
    }
}

} // verus!
