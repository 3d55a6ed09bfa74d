//! A KDL document as plain values: what configuration decoding reads.

use knuffel::span::Span;
use vstd::prelude::*;

verus! {

#[verifier::external_type_specification]
#[verifier::external_body]
#[verifier::reject_recursive_types(T)]
#[verifier::reject_recursive_types(S)]
pub struct ExKdlSpanned<T, S>(knuffel::span::Spanned<T, S>);

#[verifier::external_type_specification]
#[verifier::external_body]
#[verifier::reject_recursive_types(S)]
pub struct ExKdlAstNode<S>(knuffel::ast::Node<S>);

#[verifier::external_type_specification]
#[verifier::external_body]
#[verifier::reject_recursive_types(S)]
pub struct ExKdlAstValue<S>(knuffel::ast::Value<S>);

#[verifier::external_type_specification]
#[verifier::external_body]
pub struct ExKdlSpan(knuffel::span::Span);

#[verifier::external_type_specification]
#[verifier::external_body]
pub struct ExKdlError(knuffel::Error);

/// A KDL scalar value.
#[derive(Debug, Clone)]
pub enum KdlValue {
    Null,
    Bool(bool),
    /// An integer; `None` when it does not fit in an `i64`.
    Int(Option<i64>),
    /// A decimal (floating point) literal, in knuffel's `Debug` form
    /// (`Decimal("1.5")`); decoding only tells decimals apart from other
    /// values.
    Decimal(String),
    Str(String),
}

/// A KDL node: its name, positional arguments, named properties, and its
/// children (`None` when the node has no braces).
#[derive(Debug)]
pub struct KdlNode {
    pub name: String,
    pub arguments: Vec<KdlValue>,
    pub properties: Vec<(String, KdlValue)>,
    pub children: Option<Vec<KdlNode>>,
}

/// Why a configuration section could not be decoded.
#[derive(Debug, Clone, Copy, PartialEq, Eq, Structural)]
pub enum ConfigError {
    /// The text is not a KDL document.
    Syntax,
    /// A node has a positional argument it does not take.
    UnexpectedArgument,
    /// A node lacks an argument it needs.
    MissingArgument,
    /// A node has a named property it does not take.
    UnexpectedProperty,
    /// A node has children it does not take.
    UnexpectedChild,
    /// A child node that the section does not know.
    UnknownNode,
    /// A child node given twice where one is expected.
    DuplicateNode,
    /// An argument of the wrong kind or out of range.
    InvalidValue,
}

/// The node has at least one child node.
pub open spec fn has_child_nodes(n: KdlNode) -> bool {
    n.children matches Some(c) && c@.len() > 0
}

/// Whether the node has at least one child node.
pub fn node_has_children(n: &KdlNode) -> (r: bool)
    ensures
        r == has_child_nodes(*n),
{
    match &n.children {
        Some(c) => c.len() > 0,
        None => false,
    }
}

/// The nodes of the KDL document written `text`, as `knuffel::parse_ast`
/// reads them; `None` when the text is not a KDL document.
pub uninterp spec fn kdl_document(text: Seq<char>) -> Option<Seq<KdlNode>>;

/// One value of a `knuffel` syntax tree as a `KdlValue`: an integer that
/// does not fit in an `i64` becomes `Int(None)`, a decimal is kept in its
/// `Debug` form.
#[verifier::external_body]
fn kdl_value_of(v: &knuffel::ast::Value<Span>) -> KdlValue {
    match &*v.literal {
        knuffel::ast::Literal::Null => KdlValue::Null,
        knuffel::ast::Literal::Bool(b) => KdlValue::Bool(*b),
        knuffel::ast::Literal::Int(i) => KdlValue::Int(i64::try_from(i).ok()),
        knuffel::ast::Literal::Decimal(d) => KdlValue::Decimal(format!("{d:?}")),
        knuffel::ast::Literal::String(s) => KdlValue::Str(s.to_string()),
    }
}

/// One node of a `knuffel` syntax tree, with its children, as a `KdlNode`.
#[verifier::external_body]
fn kdl_node_of(n: &knuffel::ast::SpannedNode<Span>) -> KdlNode {
    KdlNode {
        name: n.node_name.to_string(),
        arguments: n.arguments.iter().map(kdl_value_of).collect(),
        properties: n.properties.iter().map(|(k, v)| (k.to_string(), kdl_value_of(v))).collect(),
        children: n.children.as_ref().map(|c| c.iter().map(kdl_node_of).collect()),
    }
}

/// Parses `text` with `knuffel::parse_ast` and hands back its nodes.
///
/// Claimed: the nodes, or the failure, depend on the text alone (the file
/// name only labels the error report); they are what `kdl_document` names.
/// What the KDL grammar accepts is left unsaid.
#[verifier::external_body]
pub(crate) fn parse_kdl(file_name: &str, text: &str) -> (r: Result<Vec<KdlNode>, knuffel::Error>)
    ensures
        match r {
            Ok(nodes) => kdl_document(text@) == Some(nodes@),
            Err(_) => kdl_document(text@) is None,
        },
{
    match knuffel::parse_ast::<Span>(file_name, text) {
        Ok(doc) => Ok(doc.nodes.iter().map(kdl_node_of).collect()),
        Err(e) => Err(e),
    }
}

} // verus!
