//! The YAML text of a document, read and written by `serde_yaml`.
//!
//! Nothing in this file is proved. The two functions that the rest of the
//! library calls, [`read_tree`] and [`write_tree`], hand the work to
//! `serde_yaml` and say only that the outcome depends on nothing but the
//! argument.

use crate::tree::{Node, Pair, Tree};
use serde_yaml::Value;
use vstd::prelude::*;

verus! {

/// A YAML value of `serde_yaml`, opaque to the verifier.
#[verifier::external_type_specification]
#[verifier::external_body]
pub struct ExValue(serde_yaml::Value);

/// The tree that `serde_yaml::from_str` reads out of `text`, with tags left
/// out; `None` where it reports an error.
pub uninterp spec fn yaml_tree(text: Seq<char>) -> Option<Tree>;

/// The message of the error that `serde_yaml::from_str` reports on `text`,
/// where it reports one.
pub uninterp spec fn yaml_fault(text: Seq<char>) -> Seq<char>;

/// The text that `serde_yaml::to_string` writes for `tree`; `None` where no
/// YAML value can be made of the tree (a number whose numeral
/// `serde_yaml::Number` does not read) or the writer reports an error.
pub uninterp spec fn yaml_text(tree: Tree) -> Option<Seq<char>>;

/// Calls `serde_yaml::from_str` for a `serde_yaml::Value` and hands the
/// value over as a [`Node`], or the error as its message. Assumed: the
/// outcome is a function of the text alone, named [`yaml_tree`], and so is
/// the message of an error, named [`yaml_fault`].
#[verifier::external_body]
pub(crate) fn read_tree(text: &str) -> (read: Result<Node, String>)
    ensures
        match read {
            Ok(node) => yaml_tree(text@) == Some(node@),
            Err(message) => yaml_tree(text@) is None && message@ == yaml_fault(text@),
        },
{
    match serde_yaml::from_str::<Value>(text) {
        Ok(value) => Ok(node_of_value(value)),
        Err(fault) => Err(fault.to_string()),
    }
}

/// Makes a `serde_yaml::Value` of `node` and calls `serde_yaml::to_string`
/// on it. Assumed: the result is a function of the tree alone, named
/// [`yaml_text`].
#[verifier::external_body]
pub(crate) fn write_tree(node: &Node) -> (written: Option<String>)
    ensures
        match written {
            Some(text) => yaml_text(node@) == Some(text@),
            None => yaml_text(node@) is None,
        },
{
    serde_yaml::to_string(&value_of_node(node)?).ok()
}

/// The conversion inside [`read_tree`]: each variant of `serde_yaml::Value`
/// becomes the variant of [`Node`] of the same kind, a number by
/// `Number::to_string`; of a tagged value the value is kept.
#[verifier::external_body]
fn node_of_value(value: Value) -> Node {
    match value {
        Value::Null => Node::Null,
        Value::Bool(b) => Node::Bool(b),
        Value::Number(number) => Node::Number(number.to_string()),
        Value::String(text) => Node::Text(text),
        Value::Sequence(items) => Node::List(items.into_iter().map(node_of_value).collect()),
        Value::Mapping(pairs) => Node::Table(
            pairs.into_iter().map(|(k, v)| Pair { key: node_of_value(k), value: node_of_value(v) }).collect(),
        ),
        Value::Tagged(tagged) => node_of_value(tagged.value),
    }
}

/// The conversion inside [`write_tree`]: each variant of [`Node`] becomes
/// the variant of `serde_yaml::Value` of the same kind, a number by
/// `Number::from_str`, whose refusal ends the conversion with `None`.
#[verifier::external_body]
fn value_of_node(node: &Node) -> Option<Value> {
    Some(match node {
        Node::Null => Value::Null,
        Node::Bool(b) => Value::Bool(*b),
        Node::Number(numeral) => Value::Number(numeral.parse().ok()?),
        Node::Text(text) => Value::String(text.clone()),
        Node::List(items) => Value::Sequence(items.iter().map(value_of_node).collect::<Option<_>>()?),
        Node::Table(pairs) => Value::Mapping(
            pairs.iter().map(|p| Some((value_of_node(&p.key)?, value_of_node(&p.value)?))).collect::<Option<_>>()?,
        ),
    })
}

} // verus!
