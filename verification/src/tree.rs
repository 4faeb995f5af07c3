//! The generic parse tree the external grammar hands over: labeled nodes
//! carrying a byte-range source span, their matched text, and their children;
//! plus the small shape-decoding helpers the elaborator leans on ("exactly
//! one / two / three children").

use vstd::prelude::*;

use crate::error::Loc;

verus! {

/// Grammar-rule labels of parse-tree nodes.
#[derive(Debug, Clone, Copy, PartialEq, Eq, Structural)]
pub enum Rule {
    Item,
    TemplateDescriptor,
    Identifier,
    TemplateArgs,
    TemplatePositionalArg,
    TemplateNamedArg,
    TemplateExpansionContents,
    TemplateVal,
    TemplateMoneyAmount,
    BuiltinNeg,
    BuiltinSum,
    SumList,
    BuiltinConcat,
    ConcatList,
    TemplateString,
    TemplateTime,
    TemplateArgExpand,
    MoneyAmount,
    TagText,
    TagContent,
    EntryVal,
    EntryType,
    CategoryCode,
    EntrySpan,
    SpanValue,
    SpanDuration,
    SpanWindow,
    SpanCount,
    EntryTag,
    TemplateTag,
    EntriesYear,
    MarkerYear,
    EntriesMonth,
    MarkerMonth,
    EntriesDay,
    MarkerDay,
    Entry,
    PlainEntry,
    ExpandEntry,
    ExpandArgs,
    PositionalArg,
    NamedArg,
    ArgValue,
    Eoi,
}

/// One node of the parse tree: its rule label, the byte range it covers in
/// the source, the text it matched, and its children in source order.
#[derive(Debug, PartialEq, Eq)]
pub struct Node {
    pub rule: Rule,
    pub start: usize,
    pub end: usize,
    pub text: String,
    pub children: Vec<Node>,
}

/// The source location of a node, under a file path.
pub open spec fn node_loc(path: Seq<char>, n: Node) -> crate::error::LocV {
    crate::error::LocV { path: path, start: n.start as int, end: n.end as int }
}

/// Build the [`Loc`] of a node.
pub fn make_loc(path: &str, n: &Node) -> (r: Loc)
    ensures
        r.deep_view() == node_loc(path@, *n),
{
    Loc { path: path.to_owned(), start: n.start, end: n.end }
}

/// The only child of a node that has exactly one.
pub open spec fn spec_subrule(n: Node) -> Option<Node> {
    if n.children.len() == 1 {
        Some(n.children[0])
    } else {
        None
    }
}

/// Contents of a wrapper node: exactly one child.
pub fn subrule(n: &Node) -> (r: Option<&Node>)
    ensures
        r is Some <==> n.children@.len() == 1,
        r matches Some(c) ==> *c == n.children@[0],
{
    if n.children.len() == 1 {
        Some(&n.children[0])
    } else {
        None
    }
}

/// Contents of a wrapper node that must carry the given rule label.
pub fn subrule_of(n: &Node, rule: Rule) -> (r: Option<&Node>)
    ensures
        r is Some <==> n.rule == rule && n.children@.len() == 1,
        r matches Some(c) ==> *c == n.children@[0],
{
    if n.rule == rule {
        subrule(n)
    } else {
        None
    }
}

/// The two children of a node that has exactly two.
pub fn two_children(n: &Node) -> (r: Option<(&Node, &Node)>)
    ensures
        r is Some <==> n.children@.len() == 2,
        r matches Some(c) ==> *c.0 == n.children@[0] && *c.1 == n.children@[1],
{
    if n.children.len() == 2 {
        Some((&n.children[0], &n.children[1]))
    } else {
        None
    }
}

/// The three children of a node that has exactly three.
pub fn three_children(n: &Node) -> (r: Option<(&Node, &Node, &Node)>)
    ensures
        r is Some <==> n.children@.len() == 3,
        r matches Some(c) ==> *c.0 == n.children@[0] && *c.1 == n.children@[1] && *c.2
            == n.children@[2],
{
    if n.children.len() == 3 {
        Some((&n.children[0], &n.children[1], &n.children[2]))
    } else {
        None
    }
}

} // verus!
