use perchance_parse::{
    get_span, missing, parse_tree, unexpected, validate_rule, validate_rule_one_of, Item, Node,
    Parse, ParseError, PerchanceRule, PerchanceRuleInner, Rule, Span,
};

fn span(text: &str, start: usize) -> Span {
    Span { content: text.to_string(), start, end: start + text.len() }
}

fn leaf(tag: Rule, text: &str, start: usize) -> Node {
    Node { rule: tag, span: span(text, start), inner: Vec::new() }
}

fn node(tag: Rule, text: &str, start: usize, inner: Vec<Node>) -> Node {
    Node { rule: tag, span: span(text, start), inner }
}

/// `name: a | b | ...` on one line, each alternative a rule of raw text.
fn section(name: &str, start: usize, alternatives: &[&str]) -> Node {
    let mut text = format!("{}: ", name);
    let mut rules = Vec::new();
    for (k, alt) in alternatives.iter().enumerate() {
        if k > 0 {
            text.push_str(" | ");
        }
        let at = start + text.len();
        text.push_str(alt);
        rules.push(node(Rule::rule, alt, at, vec![leaf(Rule::sector_raw, alt, at)]));
    }
    let rules_at = start + name.len() + 2;
    let rules_text = text[name.len() + 2..].to_string();
    node(
        Rule::section,
        &text,
        start,
        vec![leaf(Rule::name, name, start), node(Rule::rules, &rules_text, rules_at, rules)],
    )
}

fn file(sections: Vec<Node>, text: &str) -> Node {
    let mut inner = sections;
    inner.push(leaf(Rule::EOI, "", text.len()));
    node(Rule::file, text, 0, inner)
}

fn raw_text(rule: &PerchanceRule) -> &str {
    match rule.as_ref() {
        PerchanceRuleInner::Raw(s) => s,
        other => panic!("expected raw text, got {:?}", other),
    }
}

fn expect_item_like(item: &Item, name: &str, values: &[&str]) {
    assert_eq!(item.name, name);
    assert_eq!(item.rules.len(), values.len());
    for (rule, value) in item.rules.iter().zip(values.iter()) {
        assert_eq!(raw_text(rule), *value);
    }
}

#[test]
fn parse_item_single_item_parses_correctly() {
    let text = "pack: backpack | bag\n";
    let result = parse_tree(&file(vec![section("pack", 0, &["backpack", "bag"])], text));
    assert!(result.is_ok());
    let Ok(items) = result else { unreachable!() };
    assert_eq!(items.len(), 1);
    expect_item_like(&items[0], "pack", &["backpack", "bag"]);
}

#[test]
fn parse_item_two_items_parses_correctly() {
    let text = "pack: backpack | bag\nfruit: apple | orange\n";
    let tree = file(
        vec![section("pack", 0, &["backpack", "bag"]), section("fruit", 21, &["apple", "orange"])],
        text,
    );
    let result = parse_tree(&tree);
    assert!(result.is_ok());
    let Ok(items) = result else { unreachable!() };
    assert_eq!(items.len(), 2);
    expect_item_like(&items[0], "pack", &["backpack", "bag"]);
    expect_item_like(&items[1], "fruit", &["apple", "orange"]);
}

#[test]
fn parse_item_inline_rule_parses_correctly() {
    let text = "pack: bag\n";
    let result = parse_tree(&file(vec![section("pack", 0, &["bag"])], text));
    assert!(result.is_ok());
    let Ok(items) = result else { unreachable!() };
    assert_eq!(items.len(), 1);
    expect_item_like(&items[0], "pack", &["bag"]);
}

#[test]
fn parse_file_returns_no_rules_for_empty_file() {
    let result = parse_tree(&file(Vec::new(), ""));
    assert!(result.is_ok());
    let result = result.unwrap();
    assert!(result.is_empty());
}

#[test]
fn root_without_children_gives_no_items() {
    let result = parse_tree(&node(Rule::file, "", 0, Vec::new()));
    assert!(result.unwrap().is_empty());
}

#[test]
fn item_keeps_name_and_span() {
    let item = Item::parse(&section("pack", 4, &["backpack", "bag"])).unwrap();
    assert_eq!(item.name, "pack");
    assert_eq!(item.span, span("pack: backpack | bag", 4));
    assert_eq!(item.rules[1].span, span("bag", 21));
}

#[test]
fn section_without_rules_is_missing_item() {
    let bare = node(Rule::section, "pack:", 0, vec![leaf(Rule::name, "pack", 0)]);
    let result = parse_tree(&file(vec![bare], "pack:"));
    assert!(matches!(result, Err(ParseError::MissingItem { slug: "item-rule(s)" })));
}

#[test]
fn section_without_children_is_missing_name() {
    let result = Item::parse(&node(Rule::section, "", 0, Vec::new()));
    assert!(matches!(result, Err(ParseError::MissingItem { slug: "item-name" })));
}

#[test]
fn item_from_other_tag_is_invalid() {
    let result = Item::parse(&leaf(Rule::name, "pack", 0));
    assert!(matches!(
        result,
        Err(ParseError::InvalidRuleError { expected: Rule::section, actual: Rule::name })
    ));
}

#[test]
fn unexpected_top_level_tag_fails() {
    let stray = leaf(Rule::sector_raw, "oops", 0);
    let result = parse_tree(&file(vec![section("pack", 5, &["bag"]), stray], "oops\npack: bag"));
    assert!(matches!(
        result,
        Err(ParseError::UnexpectedRule { rule: Rule::sector_raw, origin: "parse-file" })
    ));
}

#[test]
fn first_failing_item_decides_the_error() {
    let bad_rule = node(Rule::rules, "x", 6, vec![leaf(Rule::number, "1", 6)]);
    let bad = node(Rule::section, "pack: 1", 0, vec![leaf(Rule::name, "pack", 0), bad_rule]);
    let stray = leaf(Rule::import, "x", 8);
    let result = parse_tree(&file(vec![bad, stray], "pack: 1\nx"));
    assert!(matches!(
        result,
        Err(ParseError::InvalidRuleErrorOneOf { actual: Rule::number, .. })
    ));
}

#[test]
fn single_child_compound_collapses() {
    let child = leaf(Rule::sector_raw, "bag", 3);
    let direct = PerchanceRule::parse(&child).unwrap();
    let compound = PerchanceRule::parse(&node(Rule::rule, "bag", 3, vec![child])).unwrap();
    assert!(matches!(compound.as_ref(), PerchanceRuleInner::Raw(s) if s == "bag"));
    assert_eq!(compound.span, direct.span);
}

#[test]
fn compound_keeps_children_in_order() {
    let a = leaf(Rule::sector_raw, "big ", 0);
    let b = leaf(Rule::name, "animal", 4);
    let c = leaf(Rule::sector_raw, "!", 10);
    let rule = PerchanceRule::parse(&node(Rule::rule, "big animal!", 0, vec![a, b, c])).unwrap();
    assert_eq!(rule.span, span("big animal!", 0));
    let PerchanceRuleInner::Compound(parts) = rule.as_ref() else { panic!("not compound") };
    assert_eq!(parts.len(), 3);
    assert!(matches!(parts[0].as_ref(), PerchanceRuleInner::Raw(s) if s == "big "));
    assert!(matches!(parts[1].as_ref(), PerchanceRuleInner::Name(s) if s == "animal"));
    assert!(matches!(parts[2].as_ref(), PerchanceRuleInner::Raw(s) if s == "!"));
}

#[test]
fn empty_compound_has_no_parts() {
    let rule = PerchanceRule::parse(&node(Rule::rule, "", 0, Vec::new())).unwrap();
    assert!(matches!(rule.as_ref(), PerchanceRuleInner::Compound(v) if v.is_empty()));
}

#[test]
fn shorthand_gives_options_in_order() {
    let opts = node(
        Rule::sector_shorthand,
        "{a|b}",
        0,
        vec![leaf(Rule::sector_raw, "a", 1), leaf(Rule::sector_raw, "b", 3)],
    );
    let rule = PerchanceRule::parse(&opts).unwrap();
    let PerchanceRuleInner::Options(v) = rule.as_ref() else { panic!("not options") };
    assert_eq!(v.len(), 2);
    assert_eq!(v[0].span, span("a", 1));
    assert_eq!(v[1].span, span("b", 3));
}

#[test]
fn reference_chain_in_access_order() {
    let chain = node(
        Rule::reference_name,
        "a.b.c",
        1,
        vec![leaf(Rule::name, "a", 1), leaf(Rule::name, "b", 3), leaf(Rule::name, "c", 5)],
    );
    let wrapped = node(Rule::sector_reference, "[a.b.c]", 0, vec![chain]);
    let rule = PerchanceRule::parse(&wrapped).unwrap();
    assert_eq!(rule.span, span("a.b.c", 1));
    let PerchanceRuleInner::Reference { chain } = rule.as_ref() else { panic!("not reference") };
    let names: Vec<&str> = chain
        .iter()
        .map(|r| match r.as_ref() {
            PerchanceRuleInner::Name(s) => s.as_str(),
            _ => "",
        })
        .collect();
    assert_eq!(names, vec!["a", "b", "c"]);
}

#[test]
fn wrapper_without_child_is_missing_value() {
    let result = PerchanceRule::parse(&node(Rule::store_value, "", 0, Vec::new()));
    assert!(matches!(result, Err(ParseError::MissingItem { slug: "rule-wrapped-value" })));
}

#[test]
fn odds_keep_the_numeral() {
    let odds = node(Rule::sector_odds, "^2.5", 0, vec![leaf(Rule::number, "2.5", 1)]);
    let rule = PerchanceRule::parse(&odds).unwrap();
    assert!(matches!(rule.as_ref(), PerchanceRuleInner::Odds { modifier } if modifier == "2.5"));
    assert_eq!(rule.span, span("^2.5", 0));
}

#[test]
fn odds_without_number_is_missing() {
    let result = PerchanceRule::parse(&node(Rule::sector_odds, "^", 0, Vec::new()));
    assert!(matches!(result, Err(ParseError::MissingItem { slug: "rule-odds-number" })));
}

#[test]
fn odds_with_other_child_is_invalid() {
    let odds = node(Rule::sector_odds, "^x", 0, vec![leaf(Rule::name, "x", 1)]);
    let result = PerchanceRule::parse(&odds);
    assert!(matches!(
        result,
        Err(ParseError::InvalidRuleError { expected: Rule::number, actual: Rule::name })
    ));
}

#[test]
fn import_names_the_generator() {
    let import = node(Rule::import, "{import:animals}", 0, vec![leaf(Rule::generator_name, "animals", 8)]);
    let rule = PerchanceRule::parse(&import).unwrap();
    assert!(matches!(rule.as_ref(), PerchanceRuleInner::Import { generator } if generator == "animals"));
}

#[test]
fn import_without_generator_is_missing() {
    let result = PerchanceRule::parse(&node(Rule::import, "{import:}", 0, Vec::new()));
    assert!(matches!(result, Err(ParseError::MissingItem { slug: "rule-import-generator" })));
}

#[test]
fn import_with_other_child_is_invalid() {
    let import = node(Rule::import, "{import:x}", 0, vec![leaf(Rule::name, "x", 8)]);
    let result = PerchanceRule::parse(&import);
    assert!(matches!(
        result,
        Err(ParseError::InvalidRuleError { expected: Rule::generator_name, actual: Rule::name })
    ));
}

#[test]
fn store_binds_the_unwrapped_value() {
    let value = node(Rule::store_value, "animal", 5, vec![leaf(Rule::name, "animal", 5)]);
    let store = node(Rule::sector_store, "[pet=animal]", 0, vec![leaf(Rule::name, "pet", 1), value]);
    let rule = PerchanceRule::parse(&store).unwrap();
    let PerchanceRuleInner::Store { name, value } = rule.as_ref() else { panic!("not store") };
    assert_eq!(name, "pet");
    assert!(matches!(&value.inner, PerchanceRuleInner::Name(s) if s == "animal"));
    assert_eq!(value.span, span("animal", 5));
}

#[test]
fn store_without_value_is_missing() {
    let store = node(Rule::sector_store, "[pet=]", 0, vec![leaf(Rule::name, "pet", 1)]);
    let result = PerchanceRule::parse(&store);
    assert!(matches!(result, Err(ParseError::MissingItem { slug: "rule-store-value" })));
    let empty = PerchanceRule::parse(&node(Rule::sector_store, "[]", 0, Vec::new()));
    assert!(matches!(empty, Err(ParseError::MissingItem { slug: "rule-store-name" })));
}

#[test]
fn store_with_bare_value_is_invalid() {
    let store = node(
        Rule::sector_store,
        "[pet=animal]",
        0,
        vec![leaf(Rule::name, "pet", 1), leaf(Rule::name, "animal", 5)],
    );
    let result = PerchanceRule::parse(&store);
    assert!(matches!(
        result,
        Err(ParseError::InvalidRuleError { expected: Rule::store_value, actual: Rule::name })
    ));
}

#[test]
fn rule_from_unknown_tag_lists_expected_tags() {
    let result = PerchanceRule::parse(&leaf(Rule::file, "", 0));
    let Err(ParseError::InvalidRuleErrorOneOf { expected, actual }) = result else {
        panic!("expected a one-of error")
    };
    assert_eq!(actual, Rule::file);
    assert_eq!(expected.len(), 10);
    assert!(expected.contains(&Rule::sector_raw));
    assert!(!expected.contains(&Rule::EOI));
}

#[test]
fn failing_child_aborts_the_whole_rule() {
    let bad = node(Rule::sector_odds, "^", 4, Vec::new());
    let rule = node(Rule::rule, "a ^", 0, vec![leaf(Rule::sector_raw, "a ", 0), bad]);
    let result = PerchanceRule::parse(&rule);
    assert!(matches!(result, Err(ParseError::MissingItem { slug: "rule-odds-number" })));
}

#[test]
fn span_is_copied() {
    let n = leaf(Rule::name, "pack", 7);
    assert_eq!(get_span(&n), Span { content: "pack".to_string(), start: 7, end: 11 });
}

#[test]
fn error_helpers() {
    assert!(matches!(missing("slot"), ParseError::MissingItem { slug: "slot" }));
    let r: Result<u8, ParseError> = unexpected("here", Rule::EOI);
    assert!(matches!(r, Err(ParseError::UnexpectedRule { rule: Rule::EOI, origin: "here" })));
    assert!(validate_rule(Rule::name, Rule::name).is_ok());
    assert!(matches!(
        validate_rule(Rule::name, Rule::import),
        Err(ParseError::InvalidRuleError { expected: Rule::import, actual: Rule::name })
    ));
    assert!(validate_rule_one_of(Rule::name, vec![Rule::import, Rule::name]).is_ok());
    assert!(matches!(
        validate_rule_one_of(Rule::EOI, vec![Rule::import]),
        Err(ParseError::InvalidRuleErrorOneOf { actual: Rule::EOI, .. })
    ));
}

#[test]
fn wrapper_tags() {
    assert!(PerchanceRule::is_wrapper(Rule::sector_reference));
    assert!(PerchanceRule::is_wrapper(Rule::store_value));
    assert!(!PerchanceRule::is_wrapper(Rule::rule));
}

#[test]
fn same_tree_twice_gives_same_items() {
    let text = "pack: backpack | bag\n";
    let tree = file(vec![section("pack", 0, &["backpack", "bag"])], text);
    let a = parse_tree(&tree).unwrap();
    let b = parse_tree(&tree).unwrap();
    assert_eq!(format!("{:?}", a), format!("{:?}", b));
}
