use vstd::prelude::*;
use crate::error::ConfigError;
use crate::node::Node;

verus! {

#[verifier::external_type_specification]
#[verifier::external_body]
pub struct ExYamlValue(serde_yaml::Value);

#[verifier::external_type_specification]
#[verifier::external_body]
pub struct ExYamlError(serde_yaml::Error);

/// The tree that serde_yaml reads from a text, or `None` where the text is no YAML
/// document.
pub uninterp spec fn yaml_document(text: Seq<char>) -> Option<Node>;

/// Relies on serde_yaml::from_str into serde_yaml::Value: the tree depends on the text
/// alone, and an error means the text holds no YAML document.
#[verifier::external_body]
pub(crate) fn parse_yaml(text: &str) -> (r: Result<Node, serde_yaml::Error>)
    ensures
        match r {
            Ok(n) => yaml_document(text@) == Some(n),
            Err(_) => yaml_document(text@) is None,
        },
{
    serde_yaml::from_str::<serde_yaml::Value>(text).map(node_of)
}

/// Reads a YAML document into a tree; text that is no YAML document is a decode error.
pub fn read_document(text: &str) -> (r: Result<Node, ConfigError>)
    ensures
        match r {
            Ok(n) => yaml_document(text@) == Some(n),
            Err(e) => yaml_document(text@) is None && e == ConfigError::DecodeError,
        },
{
    match parse_yaml(text) {
        Ok(n) => Ok(n),
        Err(_) => Err(ConfigError::DecodeError),
    }
}

/// Relies on the variants of serde_yaml::Value: each becomes the node of the same kind,
/// numbers and tags by their display text.
#[verifier::external_body]
fn node_of(v: serde_yaml::Value) -> Node {
    match v {
        serde_yaml::Value::Null => Node::Null,
        serde_yaml::Value::Bool(b) => Node::Bool(b),
        serde_yaml::Value::Number(n) => Node::Number(n.to_string()),
        serde_yaml::Value::String(s) => Node::Text(s),
        serde_yaml::Value::Sequence(xs) => Node::Sequence(xs.into_iter().map(node_of).collect()),
        serde_yaml::Value::Mapping(m) => Node::Mapping(
            m.into_iter().map(|(k, x)| (node_of(k), node_of(x))).collect(),
        ),
        serde_yaml::Value::Tagged(t) => Node::Tagged(t.tag.to_string(), Box::new(node_of(t.value))),
    }
}

} // verus!
