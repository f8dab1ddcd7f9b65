//! Rules: the nodes of a generator's expression tree, and how they are built
//! from the parse tree.
use vstd::prelude::*;

use crate::error::{missing, unexpected, validate_rule, validate_rule_one_of, ErrorView, ParseError, ParseResult};
use crate::tree::{get_span, Node, Parse, Rule, Span};

verus! {

/// What a rule does.
#[derive(Debug, Default)]
pub enum PerchanceRuleInner {
    /// A weight on a sibling alternative, as the numeral that was written.
    Odds { modifier: String },
    /// An inline set of alternatives.
    Options(Vec<PerchanceRule>),
    /// A chain of accesses, in access order.
    Reference { chain: Vec<PerchanceRule> },
    /// Another generator, inlined by its name.
    Import { generator: String },
    /// Binds what `value` evaluates to to the variable `name`.
    Store { name: String, value: Box<PerchanceRule> },
    /// A reference to another item by its identifier.
    Name(String),
    /// Literal text.
    Raw(String),
    /// Sub-rules that follow one another.
    Compound(Vec<PerchanceRule>),
    /// The empty rule.
    #[default]
    Nop,
}

/// One node of a generator's expression tree.
#[derive(Debug, Default)]
pub struct PerchanceRule {
    pub span: Span,
    pub inner: PerchanceRuleInner,
}

/// The mathematical form of a [`PerchanceRuleInner`].
pub enum InnerView {
    Odds { modifier: Seq<char> },
    Options(Seq<RuleView>),
    Reference { chain: Seq<RuleView> },
    Import { generator: Seq<char> },
    Store { name: Seq<char>, value: Box<RuleView> },
    Name(Seq<char>),
    Raw(Seq<char>),
    Compound(Seq<RuleView>),
    Nop,
}

/// The mathematical form of a [`PerchanceRule`].
pub struct RuleView {
    pub span: Span,
    pub inner: InnerView,
}

/// The mathematical form of the rule `r`, sub-rules included.
pub open spec fn rule_view(r: PerchanceRule) -> RuleView
    decreases r, 0nat,
{
    RuleView {
        span: r.span,
        inner: match r.inner {
            PerchanceRuleInner::Odds { modifier } => InnerView::Odds { modifier: modifier@ },
            PerchanceRuleInner::Options(v) => InnerView::Options(rules_view(v@)),
            PerchanceRuleInner::Reference { chain } => InnerView::Reference {
                chain: rules_view(chain@),
            },
            PerchanceRuleInner::Import { generator } => InnerView::Import {
                generator: generator@,
            },
            PerchanceRuleInner::Store { name, value } => InnerView::Store {
                name: name@,
                value: Box::new(rule_view(*value)),
            },
            PerchanceRuleInner::Name(s) => InnerView::Name(s@),
            PerchanceRuleInner::Raw(s) => InnerView::Raw(s@),
            PerchanceRuleInner::Compound(v) => InnerView::Compound(rules_view(v@)),
            PerchanceRuleInner::Nop => InnerView::Nop,
        },
    }
}

/// The mathematical forms of the rules `s`, in order.
pub open spec fn rules_view(s: Seq<PerchanceRule>) -> Seq<RuleView>
    decreases s, 1nat,
{
    if s.len() == 0 {
        Seq::empty()
    } else {
        rules_view(s.subrange(0, s.len() - 1)).push(rule_view(s[s.len() - 1]))
    }
}

impl View for PerchanceRule {
    type V = RuleView;

    open spec fn view(&self) -> RuleView {
        rule_view(*self)
    }
}

/// The mathematical form of a built rule, or of the error instead.
pub open spec fn result_view(r: ParseResult<PerchanceRule>) -> Result<RuleView, ErrorView> {
    match r {
        Ok(x) => Ok(x@),
        Err(e) => Err(e@),
    }
}

/// The mathematical form of built rules, or of the error instead.
pub open spec fn results_view(r: ParseResult<Vec<PerchanceRule>>) -> Result<Seq<RuleView>, ErrorView> {
    match r {
        Ok(v) => Ok(rules_view(v@)),
        Err(e) => Err(e@),
    }
}

/// The tags that a rule can be built from.
pub open spec fn rule_tags() -> Seq<Rule> {
    seq![
        Rule::rule,
        Rule::name,
        Rule::import,
        Rule::sector_raw,
        Rule::sector_reference,
        Rule::reference_name,
        Rule::sector_odds,
        Rule::sector_store,
        Rule::store_value,
        Rule::sector_shorthand,
    ]
}

/// Tags of grouping nodes, which stand for their first child.
pub open spec fn is_wrapper_tag(tag: Rule) -> bool {
    tag == Rule::sector_reference || tag == Rule::store_value
}

/// Fails unless `n` carries the tag `tag`.
pub open spec fn check_tag(n: Node, tag: Rule) -> Option<ErrorView> {
    if n.rule == tag {
        None
    } else {
        Some(ErrorView::InvalidRuleError { expected: tag, actual: n.rule })
    }
}

/// The rule that the node `n` stands for, or the error met on the way: the
/// first one in source order.
pub open spec fn rule_of(n: Node) -> Result<RuleView, ErrorView>
    decreases n, 2nat,
{
    if !rule_tags().contains(n.rule) {
        Err(ErrorView::InvalidRuleErrorOneOf { expected: rule_tags(), actual: n.rule })
    } else if is_wrapper_tag(n.rule) {
        if n.inner@.len() == 0 {
            Err(ErrorView::MissingItem { slug: "rule-wrapped-value"@ })
        } else {
            rule_of(n.inner@[0])
        }
    } else {
        case_of(n)
    }
}

/// The rule built by the case for the tag of `n`, which is not a wrapper.
pub open spec fn case_of(n: Node) -> Result<RuleView, ErrorView>
    decreases n, 1nat,
{
    match n.rule {
        Rule::rule => compound_of(n),
        Rule::sector_raw => leaf_of(n, Rule::sector_raw),
        Rule::name => leaf_of(n, Rule::name),
        Rule::sector_odds => odds_of(n),
        Rule::reference_name => chain_of(n, Rule::reference_name),
        Rule::sector_shorthand => chain_of(n, Rule::sector_shorthand),
        Rule::sector_store => store_of(n),
        Rule::import => import_of(n),
        _ => Err(ErrorView::UnexpectedRule { rule: n.rule, origin: "parse-rule"@ }),
    }
}

/// A node without children whose text is the payload: `Raw` for raw text,
/// `Name` for a name.
pub open spec fn leaf_of(n: Node, tag: Rule) -> Result<RuleView, ErrorView> {
    if let Some(e) = check_tag(n, tag) {
        Err(e)
    } else {
        Ok(
            RuleView {
                span: n.span,
                inner: if tag == Rule::name {
                    InnerView::Name(n.text())
                } else {
                    InnerView::Raw(n.text())
                },
            },
        )
    }
}

/// A weight: the text of the node's first child, a number.
pub open spec fn odds_of(n: Node) -> Result<RuleView, ErrorView> {
    if let Some(e) = check_tag(n, Rule::sector_odds) {
        Err(e)
    } else if n.inner@.len() == 0 {
        Err(ErrorView::MissingItem { slug: "rule-odds-number"@ })
    } else if let Some(e) = check_tag(n.inner@[0], Rule::number) {
        Err(e)
    } else {
        Ok(RuleView { span: n.span, inner: InnerView::Odds { modifier: n.inner@[0].text() } })
    }
}

/// A reference chain (`reference_name`) or an inline set of alternatives
/// (`sector_shorthand`): the rules of all children, in order.
pub open spec fn chain_of(n: Node, tag: Rule) -> Result<RuleView, ErrorView>
    decreases n, 0nat,
{
    if let Some(e) = check_tag(n, tag) {
        Err(e)
    } else {
        match rules_of(n.inner@) {
            Err(e) => Err(e),
            Ok(rs) => Ok(
                RuleView {
                    span: n.span,
                    inner: if tag == Rule::reference_name {
                        InnerView::Reference { chain: rs }
                    } else {
                        InnerView::Options(rs)
                    },
                },
            ),
        }
    }
}

/// A compound: the rule of the only child, or else the rules of all
/// children in sequence.
pub open spec fn compound_of(n: Node) -> Result<RuleView, ErrorView>
    decreases n, 0nat,
{
    if let Some(e) = check_tag(n, Rule::rule) {
        Err(e)
    } else if n.inner@.len() == 1 {
        rule_of(n.inner@[0])
    } else {
        match rules_of(n.inner@) {
            Err(e) => Err(e),
            Ok(rs) => Ok(RuleView { span: n.span, inner: InnerView::Compound(rs) }),
        }
    }
}

/// An import: the text of the node's first child, a generator name.
pub open spec fn import_of(n: Node) -> Result<RuleView, ErrorView> {
    if let Some(e) = check_tag(n, Rule::import) {
        Err(e)
    } else if n.inner@.len() == 0 {
        Err(ErrorView::MissingItem { slug: "rule-import-generator"@ })
    } else if let Some(e) = check_tag(n.inner@[0], Rule::generator_name) {
        Err(e)
    } else {
        Ok(RuleView { span: n.span, inner: InnerView::Import { generator: n.inner@[0].text() } })
    }
}

/// A binding: the first child names the variable, the second holds the value.
pub open spec fn store_of(n: Node) -> Result<RuleView, ErrorView>
    decreases n, 0nat,
{
    if let Some(e) = check_tag(n, Rule::sector_store) {
        Err(e)
    } else if n.inner@.len() == 0 {
        Err(ErrorView::MissingItem { slug: "rule-store-name"@ })
    } else if n.inner@.len() == 1 {
        Err(ErrorView::MissingItem { slug: "rule-store-value"@ })
    } else if let Some(e) = check_tag(n.inner@[0], Rule::name) {
        Err(e)
    } else if let Some(e) = check_tag(n.inner@[1], Rule::store_value) {
        Err(e)
    } else {
        match rule_of(n.inner@[1]) {
            Err(e) => Err(e),
            Ok(v) => Ok(
                RuleView {
                    span: n.span,
                    inner: InnerView::Store { name: n.inner@[0].text(), value: Box::new(v) },
                },
            ),
        }
    }
}

/// The rules of the nodes `ns`, in order; or the error of the first node
/// that fails.
pub open spec fn rules_of(ns: Seq<Node>) -> Result<Seq<RuleView>, ErrorView>
    decreases ns, 2nat,
{
    if ns.len() == 0 {
        Ok(Seq::empty())
    } else {
        match rules_of(ns.subrange(0, ns.len() - 1)) {
            Err(e) => Err(e),
            Ok(rs) => match rule_of(ns[ns.len() - 1]) {
                Err(e) => Err(e),
                Ok(r) => Ok(rs.push(r)),
            },
        }
    }
}

/// An error met among the first `k` nodes is the error of all of them.
proof fn lemma_rules_of_failed_prefix(ns: Seq<Node>, k: int)
    requires
        0 <= k <= ns.len(),
        rules_of(ns.subrange(0, k)) is Err,
    ensures
        rules_of(ns) == rules_of(ns.subrange(0, k)),
    decreases ns.len() - k,
{
    if k == ns.len() {
        assert(ns.subrange(0, k) =~= ns);
    } else {
        assert(ns.subrange(0, k + 1).subrange(0, k) =~= ns.subrange(0, k));
        lemma_rules_of_failed_prefix(ns, k + 1);
    }
}

/// Building rules one node after another, from the left.
proof fn lemma_rules_of_step(ns: Seq<Node>, k: int)
    requires
        0 <= k < ns.len(),
    ensures
        rules_of(ns.subrange(0, k + 1)) == (match rules_of(ns.subrange(0, k)) {
            Err(e) => Err(e),
            Ok(rs) => match rule_of(ns[k]) {
                Err(e) => Err(e),
                Ok(r) => Ok(rs.push(r)),
            },
        }),
{
    assert(ns.subrange(0, k + 1).subrange(0, k) =~= ns.subrange(0, k));
    assert(ns.subrange(0, k + 1)[k] == ns[k]);
}

/// The views of rules after one more is pushed.
proof fn lemma_rules_view_push(s: Seq<PerchanceRule>, r: PerchanceRule)
    ensures
        rules_view(s.push(r)) == rules_view(s).push(rule_view(r)),
{
    assert(s.push(r).subrange(0, s.len() as int) =~= s);
}

impl PerchanceRule {
    fn parse_boxed(line: &Node) -> (r: ParseResult<Box<Self>>)
        ensures
            match r {
                Ok(b) => rule_of(*line) == Ok::<RuleView, ErrorView>(rule_view(*b)),
                Err(e) => rule_of(*line) == Err::<RuleView, ErrorView>(e@),
            },
        decreases line, 3nat,
    {
        match Self::parse_node(line) {
            Ok(x) => Ok(Box::new(x)),
            Err(e) => Err(e),
        }
    }

    fn parse_raw(line: &Node) -> (r: ParseResult<Self>)
        ensures
            result_view(r) == leaf_of(*line, Rule::sector_raw),
    {
        if let Err(e) = validate_rule(line.rule, Rule::sector_raw) {
            return Err(e);
        }
        let span = get_span(line);
        let inner = line.span.content.clone();
        Ok(Self { span, inner: PerchanceRuleInner::Raw(inner) })
    }

    fn parse_name(line: &Node) -> (r: ParseResult<Self>)
        ensures
            result_view(r) == leaf_of(*line, Rule::name),
    {
        if let Err(e) = validate_rule(line.rule, Rule::name) {
            return Err(e);
        }
        let span = get_span(line);
        let name = line.span.content.clone();
        Ok(Self { span, inner: PerchanceRuleInner::Name(name) })
    }

    fn parse_odds(line: &Node) -> (r: ParseResult<Self>)
        ensures
            result_view(r) == odds_of(*line),
    {
        if let Err(e) = validate_rule(line.rule, Rule::sector_odds) {
            return Err(e);
        }
        let span = get_span(line);
        if line.inner.len() == 0 {
            return Err(missing("rule-odds-number"));
        }
        let number = &line.inner[0];
        if let Err(e) = validate_rule(number.rule, Rule::number) {
            return Err(e);
        }
        let modifier = number.span.content.clone();
        Ok(Self { span, inner: PerchanceRuleInner::Odds { modifier } })
    }

    /// The rules of `nodes`, in order, stopping at the first that fails.
    pub(crate) fn parse_all(nodes: &Vec<Node>) -> (r: ParseResult<Vec<Self>>)
        ensures
            results_view(r) == rules_of(nodes@),
        decreases nodes@, 0nat,
    {
        let mut out: Vec<Self> = Vec::new();
        let mut i: usize = 0;
        proof {
            assert(nodes@.subrange(0, 0) =~= Seq::<Node>::empty());
        }
        while i < nodes.len()
            invariant
                0 <= i <= nodes.len(),
                rules_of(nodes@.subrange(0, i as int)) == Ok::<Seq<RuleView>, ErrorView>(
                    rules_view(out@),
                ),
            decreases nodes.len() - i,
        {
            proof {
                lemma_rules_of_step(nodes@, i as int);
            }
            match Self::parse_node(&nodes[i]) {
                Err(e) => {
                    proof {
                        lemma_rules_of_failed_prefix(nodes@, i + 1);
                    }
                    return Err(e);
                },
                Ok(x) => {
                    proof {
                        lemma_rules_view_push(out@, x);
                    }
                    out.push(x);
                },
            }
            i = i + 1;
        }
        proof {
            assert(nodes@.subrange(0, nodes.len() as int) =~= nodes@);
        }
        Ok(out)
    }

    fn parse_reference(line: &Node) -> (r: ParseResult<Self>)
        ensures
            result_view(r) == chain_of(*line, Rule::reference_name),
        decreases line, 0nat,
    {
        if let Err(e) = validate_rule(line.rule, Rule::reference_name) {
            return Err(e);
        }
        let span = get_span(line);
        let chain = match Self::parse_all(&line.inner) {
            Ok(v) => v,
            Err(e) => return Err(e),
        };
        Ok(Self { span, inner: PerchanceRuleInner::Reference { chain } })
    }

    fn parse_compound(line: &Node) -> (r: ParseResult<Self>)
        ensures
            result_view(r) == compound_of(*line),
        decreases line, 0nat,
    {
        if let Err(e) = validate_rule(line.rule, Rule::rule) {
            return Err(e);
        }
        let span = get_span(line);
        if line.inner.len() == 1 {
            return Self::parse_node(&line.inner[0]);
        }
        let rules = match Self::parse_all(&line.inner) {
            Ok(v) => v,
            Err(e) => return Err(e),
        };
        Ok(Self { span, inner: PerchanceRuleInner::Compound(rules) })
    }

    fn parse_shorthand(line: &Node) -> (r: ParseResult<Self>)
        ensures
            result_view(r) == chain_of(*line, Rule::sector_shorthand),
        decreases line, 0nat,
    {
        if let Err(e) = validate_rule(line.rule, Rule::sector_shorthand) {
            return Err(e);
        }
        let span = get_span(line);
        let options = match Self::parse_all(&line.inner) {
            Ok(v) => v,
            Err(e) => return Err(e),
        };
        Ok(Self { span, inner: PerchanceRuleInner::Options(options) })
    }

    fn parse_import(line: &Node) -> (r: ParseResult<Self>)
        ensures
            result_view(r) == import_of(*line),
    {
        if let Err(e) = validate_rule(line.rule, Rule::import) {
            return Err(e);
        }
        let span = get_span(line);
        if line.inner.len() == 0 {
            return Err(missing("rule-import-generator"));
        }
        let generator = &line.inner[0];
        if let Err(e) = validate_rule(generator.rule, Rule::generator_name) {
            return Err(e);
        }
        let generator = generator.span.content.clone();
        Ok(Self { span, inner: PerchanceRuleInner::Import { generator } })
    }

    fn parse_store(line: &Node) -> (r: ParseResult<Self>)
        ensures
            result_view(r) == store_of(*line),
        decreases line, 0nat,
    {
        if let Err(e) = validate_rule(line.rule, Rule::sector_store) {
            return Err(e);
        }
        let span = get_span(line);
        if line.inner.len() == 0 {
            return Err(missing("rule-store-name"));
        }
        if line.inner.len() == 1 {
            return Err(missing("rule-store-value"));
        }
        let key = &line.inner[0];
        let value = &line.inner[1];
        if let Err(e) = validate_rule(key.rule, Rule::name) {
            return Err(e);
        }
        if let Err(e) = validate_rule(value.rule, Rule::store_value) {
            return Err(e);
        }
        let name = key.span.content.clone();
        let value = match Self::parse_boxed(value) {
            Ok(b) => b,
            Err(e) => return Err(e),
        };
        Ok(Self { span, inner: PerchanceRuleInner::Store { name, value } })
    }

    /// Whether a node of this tag stands for its first child.
    pub fn is_wrapper(tag: Rule) -> (r: bool)
        ensures
            r == is_wrapper_tag(tag),
    {
        matches!(tag, Rule::sector_reference | Rule::store_value)
    }

    /// The rule that `line` stands for.
    fn parse_node(line: &Node) -> (r: ParseResult<Self>)
        ensures
            result_view(r) == rule_of(*line),
        decreases line, 2nat,
    {
        let expected = vec![
            Rule::rule,
            Rule::name,
            Rule::import,
            Rule::sector_raw,
            Rule::sector_reference,
            Rule::reference_name,
            Rule::sector_odds,
            Rule::sector_store,
            Rule::store_value,
            Rule::sector_shorthand,
        ];
        proof {
            assert(expected@ =~= rule_tags());
        }
        if let Err(e) = validate_rule_one_of(line.rule, expected) {
            return Err(e);
        }
        if Self::is_wrapper(line.rule) {
            if line.inner.len() == 0 {
                return Err(missing("rule-wrapped-value"));
            }
            return Self::parse_node(&line.inner[0]);
        }
        proof {
            assert(rule_of(*line) == case_of(*line));
        }
        match line.rule {
            Rule::rule => Self::parse_compound(line),
            Rule::sector_raw => Self::parse_raw(line),
            Rule::name => Self::parse_name(line),
            Rule::sector_odds => Self::parse_odds(line),
            Rule::reference_name => Self::parse_reference(line),
            Rule::sector_shorthand => Self::parse_shorthand(line),
            Rule::sector_store => Self::parse_store(line),
            Rule::import => Self::parse_import(line),
            tag => unexpected("parse-rule", tag),
        }
    }
}

/// No `Compound` in the rule `r`, at any depth, has exactly one sub-rule.
pub open spec fn no_single_compound(r: RuleView) -> bool
    decreases r,
{
    match r.inner {
        InnerView::Compound(rs) => rs.len() != 1 && forall|i: int|
            0 <= i < rs.len() ==> no_single_compound(#[trigger] rs[i]),
        InnerView::Options(rs) => forall|i: int|
            0 <= i < rs.len() ==> no_single_compound(#[trigger] rs[i]),
        InnerView::Reference { chain } => forall|i: int|
            0 <= i < chain.len() ==> no_single_compound(#[trigger] chain[i]),
        InnerView::Store { name: _, value } => no_single_compound(*value),
        _ => true,
    }
}

/// A compound node with exactly one child builds what that child builds, and
/// never a `Compound` of one rule.
pub proof fn lemma_single_child_collapse(n: Node)
    requires
        n.rule == Rule::rule,
        n.inner@.len() == 1,
    ensures
        compound_of(n) == rule_of(n.inner@[0]),
        rule_of(n) == rule_of(n.inner@[0]),
{
    assert(rule_tags()[0] == Rule::rule);
    assert(rule_of(n) == case_of(n));
}

/// Every rule that a node builds is free of `Compound`s of exactly one rule.
pub proof fn lemma_rule_of_no_single_compound(n: Node)
    ensures
        rule_of(n) is Ok ==> no_single_compound(rule_of(n)->Ok_0),
    decreases n, 2nat,
{
    if rule_of(n) is Ok {
        if is_wrapper_tag(n.rule) {
            lemma_rule_of_no_single_compound(n.inner@[0]);
        } else {
            assert(rule_of(n) == case_of(n));
            match n.rule {
                Rule::rule => {
                    if n.inner@.len() == 1 {
                        lemma_rule_of_no_single_compound(n.inner@[0]);
                    } else {
                        lemma_rules_of_no_single_compound(n.inner@);
                        lemma_rules_of_in_order(n.inner@);
                    }
                },
                Rule::reference_name => {
                    lemma_rules_of_no_single_compound(n.inner@);
                },
                Rule::sector_shorthand => {
                    lemma_rules_of_no_single_compound(n.inner@);
                },
                Rule::sector_store => {
                    lemma_rule_of_no_single_compound(n.inner@[1]);
                },
                _ => {},
            }
        }
    }
}

/// Every rule that a list of nodes builds is free of `Compound`s of exactly
/// one rule.
pub proof fn lemma_rules_of_no_single_compound(ns: Seq<Node>)
    ensures
        rules_of(ns) is Ok ==> forall|i: int|
            0 <= i < rules_of(ns)->Ok_0.len() ==> no_single_compound(
                #[trigger] rules_of(ns)->Ok_0[i],
            ),
    decreases ns, 3nat,
{
    if ns.len() > 0 && rules_of(ns) is Ok {
        let prefix = ns.subrange(0, ns.len() - 1);
        lemma_rules_of_no_single_compound(prefix);
        lemma_rule_of_no_single_compound(ns[ns.len() - 1]);
    }
}

/// The rules of a list of nodes come one for each node, in the nodes' order;
/// and a failure is the failure of one of the nodes.
pub proof fn lemma_rules_of_in_order(ns: Seq<Node>)
    ensures
        rules_of(ns) is Ok ==> {
            &&& rules_of(ns)->Ok_0.len() == ns.len()
            &&& forall|i: int|
                0 <= i < ns.len() ==> rule_of(#[trigger] ns[i]) == Ok::<RuleView, ErrorView>(
                    rules_of(ns)->Ok_0[i],
                )
        },
        rules_of(ns) is Err ==> exists|i: int|
            0 <= i < ns.len() && rule_of(#[trigger] ns[i]) == Err::<RuleView, ErrorView>(
                rules_of(ns)->Err_0,
            ),
    decreases ns.len(),
{
    if ns.len() > 0 {
        let prefix = ns.subrange(0, ns.len() - 1);
        lemma_rules_of_in_order(prefix);
        if rules_of(prefix) is Ok {
            assert forall|i: int| 0 <= i < prefix.len() implies #[trigger] ns[i] == prefix[i] by {}
        } else {
            let i = choose|i: int|
                0 <= i < prefix.len() && rule_of(#[trigger] prefix[i]) == Err::<RuleView, ErrorView>(
                    rules_of(prefix)->Err_0,
                );
            assert(ns[i] == prefix[i]);
        }
    }
}

/// The sub-rules of a `Compound`, the alternatives of an `Options` and the
/// links of a `Reference` are built from the node's children, one for each,
/// in the children's order.
pub proof fn lemma_children_in_order(n: Node)
    requires
        n.rule == Rule::rule || n.rule == Rule::sector_shorthand || n.rule == Rule::reference_name,
        rule_of(n) is Ok,
        n.rule == Rule::rule ==> n.inner@.len() != 1,
    ensures
        ({
            let rs = match rule_of(n)->Ok_0.inner {
                InnerView::Compound(rs) => rs,
                InnerView::Options(rs) => rs,
                InnerView::Reference { chain } => chain,
                _ => Seq::empty(),
            };
            &&& rs.len() == n.inner@.len()
            &&& forall|i: int|
                0 <= i < rs.len() ==> rule_of(#[trigger] n.inner@[i]) == Ok::<RuleView, ErrorView>(
                    rs[i],
                )
        }),
{
    assert(rule_of(n) == case_of(n));
    lemma_rules_of_in_order(n.inner@);
}

impl Parse for PerchanceRule {
    open spec fn built_from(line: Node, r: ParseResult<Self>) -> bool {
        result_view(r) == rule_of(line)
    }

    fn parse(line: &Node) -> (r: ParseResult<Self>) {
        Self::parse_node(line)
    }
}

impl std::ops::Deref for PerchanceRule {
    type Target = PerchanceRuleInner;

    fn deref(&self) -> (r: &PerchanceRuleInner)
        ensures
            r == &self.inner,
    {
        &self.inner
    }
}

impl PerchanceRule {
    /// What the rule does.
    pub fn as_ref(&self) -> (r: &PerchanceRuleInner)
        ensures
            r == &self.inner,
    {
        &self.inner
    }
}

} // verus!
