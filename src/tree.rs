//! The tagged parse tree that the grammar matcher hands over.
use vstd::prelude::*;

use crate::error::ParseResult;

verus! {

/// The tags of the grammar: every node of a parse tree carries one.
#[allow(non_camel_case_types)]
#[derive(Clone, Copy, Debug, PartialEq, Eq, Hash, Structural)]
pub enum Rule {
    EOI,
    file,
    section,
    name,
    rules,
    rule,
    sector_raw,
    sector_reference,
    reference_name,
    sector_odds,
    number,
    sector_store,
    store_value,
    sector_shorthand,
    import,
    generator_name,
}

/// The source text that a node matched, with its byte offsets.
#[derive(Debug, Default, Clone, PartialEq, Eq, Hash)]
pub struct Span {
    pub content: String,
    pub start: usize,
    pub end: usize,
}

/// One node of the parse tree: its tag, what it matched, and its children in
/// source order.
#[derive(Debug)]
pub struct Node {
    pub rule: Rule,
    pub span: Span,
    pub inner: Vec<Node>,
}

impl Node {
    /// The children of the node, in source order.
    pub open spec fn children(self) -> Seq<Node> {
        self.inner@
    }

    /// The text that the node matched.
    pub open spec fn text(self) -> Seq<char> {
        self.span.content@
    }
}

/// A copy of what the node matched and where.
pub fn get_span(line: &Node) -> (r: Span)
    ensures
        r == line.span,
{
    Span { content: line.span.content.clone(), start: line.span.start, end: line.span.end }
}

/// A value that is built from one node of the parse tree.
pub trait Parse: Sized {
    /// `r` is what building from `line` gives.
    spec fn built_from(line: Node, r: ParseResult<Self>) -> bool;

    fn parse(line: &Node) -> (r: ParseResult<Self>)
        ensures
            Self::built_from(*line, r),
    ;
}

} // verus!
