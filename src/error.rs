//! The errors that building the syntax tree can end in.
use vstd::prelude::*;

use crate::tree::Rule;

verus! {

/// Why a document could not be turned into items.
#[allow(inconsistent_fields)]
#[derive(Debug, Clone)]
pub enum ParseError {
    /// A node carried another tag than the one expected at that place.
    InvalidRuleError { expected: Rule, actual: Rule },
    /// A node carried none of the tags expected at that place.
    InvalidRuleErrorOneOf { expected: Vec<Rule>, actual: Rule },
    /// A required child was absent; `slug` names its slot.
    MissingItem { slug: &'static str },
    /// A tag reached a place that has no case for it; `origin` names the place.
    UnexpectedRule { rule: Rule, origin: &'static str },
    /// The grammar matcher rejected the text: the tags it expected and did
    /// not expect at byte offset `pos`, or its own message.
    SyntaxError { positives: Vec<Rule>, negatives: Vec<Rule>, pos: usize, message: String },
}

pub type ParseResult<T> = Result<T, ParseError>;

/// The mathematical form of a [`ParseError`].
#[allow(inconsistent_fields)]
pub enum ErrorView {
    InvalidRuleError { expected: Rule, actual: Rule },
    InvalidRuleErrorOneOf { expected: Seq<Rule>, actual: Rule },
    MissingItem { slug: Seq<char> },
    UnexpectedRule { rule: Rule, origin: Seq<char> },
    SyntaxError { positives: Seq<Rule>, negatives: Seq<Rule>, pos: nat, message: Seq<char> },
}

impl View for ParseError {
    type V = ErrorView;

    open spec fn view(&self) -> ErrorView {
        match self {
            ParseError::InvalidRuleError { expected, actual } => ErrorView::InvalidRuleError {
                expected: *expected,
                actual: *actual,
            },
            ParseError::InvalidRuleErrorOneOf { expected, actual } =>
                ErrorView::InvalidRuleErrorOneOf { expected: expected@, actual: *actual },
            ParseError::MissingItem { slug } => ErrorView::MissingItem { slug: slug@ },
            ParseError::UnexpectedRule { rule: tag, origin } => ErrorView::UnexpectedRule {
                rule: *tag,
                origin: origin@,
            },
            ParseError::SyntaxError { positives, negatives, pos, message } =>
                ErrorView::SyntaxError {
                    positives: positives@,
                    negatives: negatives@,
                    pos: *pos as nat,
                    message: message@,
                },
        }
    }
}

/// `r` is the error whose mathematical form is `v`.
pub open spec fn fails_with<T>(r: ParseResult<T>, v: ErrorView) -> bool {
    match r {
        Ok(_) => false,
        Err(e) => e@ == v,
    }
}

/// The error for an absent child in the slot named `slug`.
pub fn missing(slug: &'static str) -> (r: ParseError)
    ensures
        r@ == (ErrorView::MissingItem { slug: slug@ }),
{
    ParseError::MissingItem { slug }
}

/// Fails with the error for a tag that `origin` has no case for.
pub fn unexpected<T>(origin: &'static str, tag: Rule) -> (r: ParseResult<T>)
    ensures
        fails_with(r, ErrorView::UnexpectedRule { rule: tag, origin: origin@ }),
{
    Err(ParseError::UnexpectedRule { rule: tag, origin })
}

/// Succeeds when `actual` is the `expected` tag.
pub fn validate_rule(actual: Rule, expected: Rule) -> (r: ParseResult<()>)
    ensures
        actual == expected ==> r is Ok,
        actual != expected ==> fails_with(r, ErrorView::InvalidRuleError { expected, actual }),
{
    if actual == expected {
        Ok(())
    } else {
        Err(ParseError::InvalidRuleError { expected, actual })
    }
}

/// Succeeds when `actual` is one of the `expected` tags.
pub fn validate_rule_one_of(actual: Rule, expected: Vec<Rule>) -> (r: ParseResult<()>)
    ensures
        expected@.contains(actual) ==> r is Ok,
        !expected@.contains(actual) ==> fails_with(
            r,
            ErrorView::InvalidRuleErrorOneOf { expected: expected@, actual },
        ),
{
    let mut i: usize = 0;
    while i < expected.len()
        invariant
            0 <= i <= expected.len(),
            forall|j: int| 0 <= j < i ==> expected@[j] != actual,
        decreases expected.len() - i,
    {
        if expected[i] == actual {
            return Ok(());
        }
        i = i + 1;
    }
    Err(ParseError::InvalidRuleErrorOneOf { expected, actual })
}

} // verus!
