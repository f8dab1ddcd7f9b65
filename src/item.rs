//! Items: named generator definitions.
use vstd::prelude::*;

use crate::error::{missing, validate_rule, ErrorView, ParseResult};
use crate::rule::{rules_of, rules_view, PerchanceRule, RuleView};
use crate::tree::{get_span, Node, Parse, Rule, Span};

verus! {

/// One named generator: its rules, one per alternative, in source order.
#[derive(Debug, Default)]
pub struct Item {
    pub name: String,
    pub span: Span,
    pub rules: Vec<PerchanceRule>,
}

/// The mathematical form of an [`Item`].
pub struct ItemView {
    pub name: Seq<char>,
    pub span: Span,
    pub rules: Seq<RuleView>,
}

impl View for Item {
    type V = ItemView;

    open spec fn view(&self) -> ItemView {
        ItemView { name: self.name@, span: self.span, rules: rules_view(self.rules@) }
    }
}

/// The item that a `section` node stands for: its first child names it, the
/// children of its second child are its rules.
pub open spec fn item_of(n: Node) -> Result<ItemView, ErrorView> {
    if n.rule != Rule::section {
        Err(ErrorView::InvalidRuleError { expected: Rule::section, actual: n.rule })
    } else if n.inner@.len() == 0 {
        Err(ErrorView::MissingItem { slug: "item-name"@ })
    } else if n.inner@.len() == 1 {
        Err(ErrorView::MissingItem { slug: "item-rule(s)"@ })
    } else {
        match rules_of(n.inner@[1].inner@) {
            Err(e) => Err(e),
            Ok(rs) => Ok(ItemView { name: n.inner@[0].text(), span: n.span, rules: rs }),
        }
    }
}

/// The mathematical form of a built item, or of the error instead.
pub open spec fn item_result_view(r: ParseResult<Item>) -> Result<ItemView, ErrorView> {
    match r {
        Ok(x) => Ok(x@),
        Err(e) => Err(e@),
    }
}

impl Parse for Item {
    open spec fn built_from(line: Node, r: ParseResult<Self>) -> bool {
        item_result_view(r) == item_of(line)
    }

    fn parse(line: &Node) -> (r: ParseResult<Self>) {
        if let Err(e) = validate_rule(line.rule, Rule::section) {
            return Err(e);
        }
        let span = get_span(line);
        if line.inner.len() == 0 {
            return Err(missing("item-name"));
        }
        if line.inner.len() == 1 {
            return Err(missing("item-rule(s)"));
        }
        let name = line.inner[0].span.content.clone();
        let rules = match PerchanceRule::parse_all(&line.inner[1].inner) {
            Ok(v) => v,
            Err(e) => return Err(e),
        };
        Ok(Self { name, span, rules })
    }
}

} // verus!
