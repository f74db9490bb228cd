//! Plain model of the parsed rule documents.
//!
//! A rule file is a YAML document, but the rules only ever read three shapes
//! from it: text scalars, sequences, and mappings. `YamlNode` holds exactly
//! those as plain values; every other scalar collapses to `Other`, which no
//! rule field accepts. Parsing itself is the parser crate's work and stays
//! behind one trusted function; everything that interprets the resulting tree
//! is verified.

use vstd::prelude::*;

verus! {

/// One node of a parsed rule document.
pub enum YamlNode {
    /// A text scalar.
    Text(String),
    /// A sequence of nodes, in document order.
    List(Vec<YamlNode>),
    /// A mapping, as key/value pairs in document order.
    Assoc(Vec<(YamlNode, YamlNode)>),
    /// Any other value (number, boolean, null, alias, bad value).
    Other,
}

/// Whether a key/value pair's key is the text `key`.
pub open spec fn spec_pair_key_is(pair: (YamlNode, YamlNode), key: Seq<char>) -> bool {
    match pair.0 {
        YamlNode::Text(s) => s@ == key,
        _ => false,
    }
}

/// The value under the first pair whose key is the text `key`, if any.
pub open spec fn spec_assoc_get(pairs: Seq<(YamlNode, YamlNode)>, key: Seq<char>) -> Option<
    YamlNode,
>
    decreases pairs.len(),
{
    if pairs.len() == 0 {
        None
    } else if spec_pair_key_is(pairs[0], key) {
        Some(pairs[0].1)
    } else {
        spec_assoc_get(pairs.drop_first(), key)
    }
}

/// The value under `key` when `node` is a mapping; `None` otherwise.
pub open spec fn spec_field(node: YamlNode, key: Seq<char>) -> Option<YamlNode> {
    match node {
        YamlNode::Assoc(pairs) => spec_assoc_get(pairs@, key),
        _ => None,
    }
}

/// The characters of `node` when it is a text scalar; `None` otherwise.
pub open spec fn spec_as_text(node: Option<YamlNode>) -> Option<Seq<char>> {
    match node {
        Some(YamlNode::Text(s)) => Some(s@),
        _ => None,
    }
}

/// Character-for-character equality of two string slices.
pub fn str_eq(a: &str, b: &str) -> (r: bool)
    ensures
        r == (a@ == b@),
{
    let a_len = a.unicode_len();
    let b_len = b.unicode_len();
    if a_len != b_len {
        return false;
    }
    let mut i: usize = 0;
    while i < a_len
        invariant
            a_len == a@.len(),
            b_len == b@.len(),
            a_len == b_len,
            i <= a_len,
            forall|j: int| 0 <= j < i ==> a@[j] == b@[j],
        decreases a_len - i,
    {
        if a.get_char(i) != b.get_char(i) {
            return false;
        }
        i = i + 1;
    }
    proof {
        assert(a@ =~= b@);
    }
    true
}

/// The value under the first pair of `pairs` whose key is the text `key`.
fn assoc_get<'a>(pairs: &'a Vec<(YamlNode, YamlNode)>, key: &str) -> (r: Option<&'a YamlNode>)
    ensures
        match r {
            Some(v) => spec_assoc_get(pairs@, key@) == Some(*v),
            None => spec_assoc_get(pairs@, key@) is None,
        },
{
    let mut i: usize = 0;
    proof {
        assert(pairs@.skip(0) =~= pairs@);
    }
    while i < pairs.len()
        invariant
            i <= pairs@.len(),
            spec_assoc_get(pairs@, key@) == spec_assoc_get(pairs@.skip(i as int), key@),
        decreases pairs@.len() - i,
    {
        proof {
            assert(pairs@.skip(i as int)[0] == pairs@[i as int]);
            assert(pairs@.skip(i as int).drop_first() =~= pairs@.skip(i as int + 1));
        }
        let pair = &pairs[i];
        let matched = match &pair.0 {
            YamlNode::Text(s) => str_eq(s.as_str(), key),
            _ => false,
        };
        if matched {
            return Some(&pair.1);
        }
        i = i + 1;
    }
    None
}

/// The value under `key` when `node` is a mapping; `None` otherwise.
pub fn field<'a>(node: &'a YamlNode, key: &str) -> (r: Option<&'a YamlNode>)
    ensures
        match r {
            Some(v) => spec_field(*node, key@) == Some(*v),
            None => spec_field(*node, key@) is None,
        },
{
    match node {
        YamlNode::Assoc(pairs) => assoc_get(pairs, key),
        _ => None,
    }
}

/// The text of the node under `key`, when `node` is a mapping whose entry
/// there is a text scalar; `None` otherwise.
pub fn text_field<'a>(node: &'a YamlNode, key: &str) -> (r: Option<&'a String>)
    ensures
        match r {
            Some(s) => spec_as_text(spec_field(*node, key@)) == Some(s@),
            None => spec_as_text(spec_field(*node, key@)) is None,
        },
{
    match field(node, key) {
        Some(YamlNode::Text(s)) => Some(s),
        _ => None,
    }
}

/// What the document parser yields for a given text: the last document of the
/// stream as a plain node tree, or `None` on a scan error or an empty stream.
pub uninterp spec fn yaml_document(text: Seq<char>) -> Option<YamlNode>;

#[verifier::external_type_specification]
#[verifier::external_body]
pub struct ExYaml(yaml_rust2::Yaml);

/// Relies on `yaml_rust2::YamlLoader::load_from_str`: the parse is a function
/// of the document text alone; the last document of the stream is taken, and a
/// scan error or an empty stream yields `None`.
#[verifier::external_body]
pub fn parse_yaml_document(text: &str) -> (r: Option<YamlNode>)
    ensures
        r == yaml_document(text@),
{
    match yaml_rust2::YamlLoader::load_from_str(text) {
        Ok(mut docs) => docs.pop().map(node_of_yaml),
        Err(_) => None,
    }
}

/// Conversion step of `parse_yaml_document`, and called only from its body:
/// maps each `yaml_rust2::Yaml` variant onto the plain model, one arm each,
/// moving the parsed values over.
#[verifier::external_body]
fn node_of_yaml(y: yaml_rust2::Yaml) -> YamlNode {
    match y {
        yaml_rust2::Yaml::String(s) => YamlNode::Text(s),
        yaml_rust2::Yaml::Array(items) => YamlNode::List(
            items.into_iter().map(node_of_yaml).collect(),
        ),
        yaml_rust2::Yaml::Hash(entries) => YamlNode::Assoc(
            entries.into_iter().map(|(k, v)| (node_of_yaml(k), node_of_yaml(v))).collect(),
        ),
        _ => YamlNode::Other,
    }
}

} // verus!
