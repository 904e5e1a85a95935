use cargo_pup::config::severity::Severity;
use cargo_pup::config::struct_lint::{StructMatch, StructRule};
use cargo_pup::lints::struct_lint::{attribute_matches, matcher_references_trait};
use cargo_pup::lints::struct_rules::{collect_rule_violations, evaluate_rule_with};

fn named(pattern: &str) -> StructRule {
    StructRule::MustBeNamed(pattern.to_string(), Severity::Warn)
}

fn leaf_value(rule: &StructRule) -> bool {
    match rule {
        StructRule::MustBeNamed(pattern, _) => pattern == "passes",
        _ => unreachable!(),
    }
}

#[test]
fn attribute_patterns_match_the_complete_name() {
    let pattern = "repr";

    assert!(attribute_matches(pattern, "repr"));
    assert!(!attribute_matches(pattern, "other_repr"));
}

#[test]
fn identifies_traits_referenced_by_complex_matchers() {
    let matcher = StructMatch::AndMatches(
        Box::new(StructMatch::Name("Service".into())),
        Box::new(StructMatch::NotMatch(Box::new(
            StructMatch::ImplementsTrait("^crate::RequiredTrait$".into()),
        ))),
    );

    assert!(matcher_references_trait(&matcher, "crate::RequiredTrait"));
    assert!(!matcher_references_trait(&matcher, "crate::OtherTrait"));
}

#[test]
fn evaluates_logical_rule_combinations() {
    let pass = named("passes");
    let fail = named("fails");

    assert!(evaluate_rule_with(
        &StructRule::And(Box::new(pass.clone()), Box::new(pass.clone())),
        &leaf_value,
    ));
    assert!(evaluate_rule_with(
        &StructRule::Or(Box::new(fail.clone()), Box::new(pass.clone())),
        &leaf_value,
    ));
    assert!(evaluate_rule_with(
        &StructRule::Not(Box::new(fail)),
        &leaf_value,
    ));
}

#[test]
fn reports_both_failed_or_alternatives() {
    let rule = StructRule::Or(Box::new(named("first")), Box::new(named("second")));
    let mut violations = Vec::new();

    collect_rule_violations(&rule, true, &leaf_value, &mut violations);

    assert_eq!(violations.len(), 2);
    assert!(violations.iter().all(|(_, expected)| *expected));
}

#[test]
fn inverts_not_rule_expectation() {
    let rule = StructRule::Not(Box::new(named("passes")));
    let mut violations = Vec::new();

    collect_rule_violations(&rule, true, &leaf_value, &mut violations);

    assert_eq!(violations.len(), 1);
    assert!(!violations[0].1);
}
