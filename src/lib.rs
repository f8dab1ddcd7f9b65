//! Builds a typed syntax tree of generator items from the tagged parse tree
//! that a grammar matcher produces for a template document.
pub mod document;
pub mod error;
pub mod item;
pub mod rule;
pub mod tree;

pub use document::parse_tree;
pub use error::{missing, unexpected, validate_rule, validate_rule_one_of, ParseError, ParseResult};
pub use item::Item;
pub use rule::{PerchanceRule, PerchanceRuleInner};
pub use tree::{get_span, Node, Parse, Rule, Span};
