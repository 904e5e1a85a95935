use cargo_pup::config::lint_builder::LintBuilder;
use cargo_pup::config::severity::Severity;
use cargo_pup::config::struct_lint::{StructLintExt, StructRule};
use cargo_pup::lints::finding::{LintId, Site};
use cargo_pup::lints::rule::ArchitectureLintRule;
use cargo_pup::lints::struct_lint::{describe_pattern, StructFacts, StructLint};
use cargo_pup::lints::struct_rules::{collect_rule_violations, evaluate_rule_with};

fn facts(name: &str, public: bool, pub_crate: bool, keyword: bool) -> StructFacts {
    StructFacts {
        name: name.to_string(),
        crate_name: "app".to_string(),
        attributes: vec!["derive".to_string(), "repr".to_string()],
        implemented_traits: vec!["core::fmt::Debug".to_string(), "app::Service".to_string()],
        is_public: public,
        is_pub_crate: pub_crate,
        has_visibility_keyword: keyword,
    }
}

fn single_lint(builder: &LintBuilder) -> StructLint {
    StructLint::new(&builder.lints[0])
}

#[test]
fn reports_public_struct_that_must_be_private() {
    let mut builder = LintBuilder::new();
    builder
        .struct_lint()
        .lint_named("private_users")
        .matching(|m| m.name("User"))
        .with_severity(Severity::Error)
        .must_be_private()
        .build();
    let lint = single_lint(&builder);
    let found = lint.check_struct(&facts("User", true, false, true));
    assert_eq!(found.len(), 1);
    assert_eq!(found[0].lint, LintId::StructMustBePrivate);
    assert_eq!(found[0].severity, Severity::Error);
    assert_eq!(found[0].site, Site::Item);
    assert_eq!(found[0].message, "Struct 'User' has pub visibility, but must be private");
    assert_eq!(found[0].help, "Remove the visibility modifier");
}

#[test]
fn unselected_struct_gets_no_report() {
    let mut builder = LintBuilder::new();
    builder
        .struct_lint()
        .lint_named("private_users")
        .matching(|m| m.name("^User$"))
        .must_be_private()
        .build();
    let lint = single_lint(&builder);
    assert!(lint.check_struct(&facts("Account", true, false, true)).is_empty());
}

#[test]
fn name_rules_describe_names_and_patterns() {
    let mut builder = LintBuilder::new();
    builder
        .struct_lint()
        .lint_named("names")
        .matching(|m| m.name(".*"))
        .must_be_named("Entity".into())
        .must_not_be_named("^User$".into())
        .build();
    let lint = single_lint(&builder);
    let found = lint.check_struct(&facts("User", false, false, false));
    assert_eq!(found.len(), 2);
    assert_eq!(found[0].lint, LintId::StructMustBeNamed);
    assert_eq!(found[0].message, "Struct must match name 'Entity', found 'User'");
    assert_eq!(found[0].help, "Rename this struct to 'Entity'");
    assert_eq!(found[1].lint, LintId::StructMustNotBeNamed);
    assert_eq!(found[1].message, "Struct must not match pattern '^User$'");
    assert_eq!(found[1].help, "Choose a name that doesn't match this pattern");
}

#[test]
fn negated_rule_reports_the_opposite_expectation() {
    let mut builder = LintBuilder::new();
    builder
        .struct_lint()
        .lint_named("not_public")
        .matching(|m| m.name("User"))
        .add_rule(StructRule::Not(Box::new(StructRule::MustBePublic(Severity::Warn))))
        .build();
    let lint = single_lint(&builder);
    let found = lint.check_struct(&facts("User", true, false, true));
    assert_eq!(found.len(), 1);
    assert_eq!(found[0].lint, LintId::StructMustBePublic);
    assert_eq!(found[0].message, "Struct 'User' must not be pub");
    assert_eq!(found[0].help, "Restrict this struct's visibility");
    assert!(lint.check_struct(&facts("User", false, true, true)).is_empty());
}

#[test]
fn visibility_descriptions_follow_the_struct() {
    let mut builder = LintBuilder::new();
    builder
        .struct_lint()
        .lint_named("vis")
        .matching(|m| m.name("User"))
        .must_be_public()
        .add_rule(StructRule::MustBePubCrate(Severity::Error))
        .build();
    let lint = single_lint(&builder);
    let found = lint.check_struct(&facts("User", false, false, false));
    assert_eq!(found.len(), 2);
    assert_eq!(found[0].message, "Struct 'User' has private visibility, but must be pub");
    assert_eq!(found[1].message, "Struct 'User' has private visibility, but must be pub(crate)");
    assert_eq!(found[1].severity, Severity::Error);
}

#[test]
fn trait_rules_look_at_implemented_traits() {
    let mut builder = LintBuilder::new();
    builder
        .struct_lint()
        .lint_named("traits")
        .matching(|m| m.implements_trait("^app::Service$"))
        .must_implement_trait("^core::clone::Clone$")
        .must_not_implement_trait("Debug")
        .build();
    let lint = single_lint(&builder);
    let found = lint.check_struct(&facts("User", true, false, true));
    assert_eq!(found.len(), 2);
    assert_eq!(found[0].lint, LintId::StructImplementsTrait);
    assert_eq!(found[0].message, "Struct 'User' must implement trait matching '^core::clone::Clone$'");
    assert_eq!(found[0].help, "Implement the required trait for this struct");
    assert_eq!(found[1].message, "Struct 'User' must not implement trait matching 'Debug'");
    assert_eq!(found[1].help, "Remove the forbidden trait implementation");
    assert!(lint.applies_to_trait("app::Service"));
    assert!(!lint.applies_to_trait("app::Other"));
    assert!(!lint.applies_to_module("app"));
    assert_eq!(lint.name(), "traits");
}

#[test]
fn attribute_matcher_needs_the_whole_name() {
    let mut builder = LintBuilder::new();
    builder
        .struct_lint()
        .lint_named("attrs")
        .matching(|m| m.has_attribute("rep"))
        .must_be_private()
        .build();
    builder
        .struct_lint()
        .lint_named("attrs2")
        .matching(|m| m.has_attribute("rep.*"))
        .must_be_private()
        .build();
    let partial = StructLint::new(&builder.lints[0]);
    let whole = StructLint::new(&builder.lints[1]);
    let f = facts("User", true, false, true);
    assert!(!partial.matches_struct(&f));
    assert!(whole.matches_struct(&f));
}

#[test]
fn name_patterns_match_the_struct_name_only() {
    let mut builder = LintBuilder::new();
    builder
        .struct_lint()
        .lint_named("helper_rule")
        .matching(|m| m.name("test_.*"))
        .must_be_private()
        .build();
    let lint = single_lint(&builder);
    let mut f = facts("User", true, false, true);
    f.crate_name = "test_app".to_string();
    assert!(!lint.matches_struct(&f));
    let mut g = facts("test_helper", true, false, true);
    g.crate_name = "mycrate".to_string();
    assert!(lint.matches_struct(&g));
}

#[test]
fn describes_patterns_by_their_special_characters() {
    assert_eq!(describe_pattern("User"), "name");
    assert_eq!(describe_pattern("User.*"), "pattern");
    assert_eq!(describe_pattern("a\\b"), "pattern");
    assert_eq!(describe_pattern("Us_er"), "name");
}

#[test]
fn no_violations_exactly_when_the_rule_holds() {
    let f = facts("User", true, false, true);
    let leaf = |r: &StructRule| f.evaluate_leaf(r);
    let rules = vec![
        StructRule::And(
            Box::new(StructRule::MustBePublic(Severity::Warn)),
            Box::new(StructRule::MustBeNamed("User".to_string(), Severity::Warn)),
        ),
        StructRule::Or(
            Box::new(StructRule::MustBePrivate(Severity::Warn)),
            Box::new(StructRule::MustBePubCrate(Severity::Warn)),
        ),
        StructRule::Not(Box::new(StructRule::MustBePublic(Severity::Warn))),
    ];
    for rule in &rules {
        for expected in [true, false] {
            let mut violations = Vec::new();
            collect_rule_violations(rule, expected, &leaf, &mut violations);
            assert_eq!(violations.is_empty(), evaluate_rule_with(rule, &leaf) == expected);
        }
    }
}
