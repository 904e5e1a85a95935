use cargo_pup::config::severity::Severity;
use cargo_pup::lints::factory::{ConfigErrorKind, LintConfigurationFactory};
use cargo_pup::lints::finding::{LintId, Site};
use cargo_pup::lints::trait_impl::{
    RequiredVisibility, TraitImplConfiguration, TraitImplFacts, TraitImplLintProcessor,
};

fn processor(visibility: Option<RequiredVisibility>) -> TraitImplLintProcessor {
    TraitImplLintProcessor::try_new(
        "rule".to_string(),
        TraitImplConfiguration {
            source_name: "path_to::SomeTrait".to_string(),
            name_must_match: Some(".*SomeTraitImpl$".to_string()),
            enforce_visibility: visibility,
            severity: Severity::Error,
        },
    )
    .unwrap()
}

fn facts(trait_name: &str, struct_name: Option<&str>, public: bool) -> TraitImplFacts {
    TraitImplFacts {
        trait_name: trait_name.to_string(),
        struct_name: struct_name.map(|s| s.to_string()),
        struct_is_public: public,
    }
}

#[test]
fn conforming_implementations_are_not_reported() {
    let p = processor(Some(RequiredVisibility::Private));
    assert!(p.check_impl(&facts("my::path_to::SomeTrait", Some("MySomeTraitImpl"), false)).is_empty());
}

#[test]
fn unrelated_traits_and_foreign_types_are_ignored() {
    let p = processor(Some(RequiredVisibility::Private));
    assert!(p.check_impl(&facts("my::OtherTrait", Some("Wrong"), true)).is_empty());
    assert!(p.check_impl(&facts("my::path_to::SomeTrait", None, true)).is_empty());
}

#[test]
fn badly_named_public_implementation_gets_two_reports() {
    let p = processor(Some(RequiredVisibility::Private));
    let found = p.check_impl(&facts("my::path_to::SomeTrait", Some("Wrong"), true));
    assert_eq!(found.len(), 2);
    assert_eq!(found[0].lint, LintId::TraitImpl);
    assert_eq!(found[0].severity, Severity::Error);
    assert_eq!(found[0].site, Site::Item);
    assert_eq!(found[0].message, "Struct 'Wrong' does not match the required pattern '.*SomeTraitImpl$'.");
    assert_eq!(found[0].help, "Consider renaming the struct.");
    assert_eq!(found[1].message, "Struct 'Wrong' is public, but should be private.");
    assert_eq!(found[1].help, "Change the visibility to private.");
}

#[test]
fn private_implementation_of_public_rule_is_reported() {
    let p = processor(Some(RequiredVisibility::Public));
    let found = p.check_impl(&facts("path_to::SomeTrait", Some("ASomeTraitImpl"), false));
    assert_eq!(found.len(), 1);
    assert_eq!(found[0].message, "Struct 'ASomeTraitImpl' is private, but should be public.");
    assert_eq!(found[0].help, "Change the visibility to public.");
}

#[test]
fn processors_need_a_compiling_trait_pattern() {
    let bad = TraitImplLintProcessor::try_new(
        "rule".to_string(),
        TraitImplConfiguration {
            source_name: "(".to_string(),
            name_must_match: None,
            enforce_visibility: None,
            severity: Severity::Warn,
        },
    );
    assert!(bad.is_none());
}

#[test]
fn name_patterns_that_do_not_compile_are_refused_when_needed() {
    let p = TraitImplLintProcessor::try_new(
        "rule".to_string(),
        TraitImplConfiguration {
            source_name: "SomeTrait".to_string(),
            name_must_match: Some("[".to_string()),
            enforce_visibility: None,
            severity: Severity::Warn,
        },
    )
    .unwrap();
    assert!(p.check_impl_checked(&facts("x::SomeTrait", Some("S"), false)).is_none());
    assert_eq!(p.check_impl_checked(&facts("x::Other", Some("S"), false)).map(|v| v.len()), Some(0));
}

fn yaml_error(text: &str) -> (ConfigErrorKind, String, String) {
    let e = LintConfigurationFactory::from_yaml(text.to_string()).unwrap_err();
    (e.kind, e.rule, e.detail)
}

#[test]
fn yaml_rules_are_read_in_name_order() {
    let text = "b_rule:\n  type: trait_impl\n  source_name: \"B\"\n  severity: Error\na_rule:\n  type: trait_impl\n  source_name: \"A\"\n  enforce_visibility: Public\n  severity: Warn\n";
    let rules = LintConfigurationFactory::from_yaml(text.to_string()).unwrap();
    assert_eq!(rules.len(), 2);
    let found = rules[0].check_impl(&facts("x::A", Some("S"), false));
    assert_eq!(found.len(), 1);
    assert_eq!(found[0].severity, Severity::Warn);
    assert_eq!(found[0].message, "Struct 'S' is private, but should be public.");
    assert!(rules[1].check_impl(&facts("x::B", Some("S"), true)).is_empty());
}

#[test]
fn yaml_errors_name_the_rule_and_the_problem() {
    assert_eq!(
        yaml_error("r:\n  source_name: X\n  severity: Warn\n"),
        (ConfigErrorKind::MissingType, "r".to_string(), "type".to_string())
    );
    assert_eq!(
        yaml_error("r:\n  type: module_usage\n"),
        (ConfigErrorKind::UnknownType, "r".to_string(), "module_usage".to_string())
    );
    assert_eq!(
        yaml_error("r:\n  type: trait_impl\n  severity: Warn\n"),
        (ConfigErrorKind::MissingField, "r".to_string(), "source_name".to_string())
    );
    assert_eq!(
        yaml_error("r:\n  type: trait_impl\n  source_name: X\n  enforce_visibility: Internal\n  severity: Warn\n"),
        (ConfigErrorKind::InvalidValue, "r".to_string(), "enforce_visibility".to_string())
    );
    assert_eq!(
        yaml_error("r:\n  type: trait_impl\n  source_name: X\n"),
        (ConfigErrorKind::MissingField, "r".to_string(), "severity".to_string())
    );
    assert_eq!(
        yaml_error("r:\n  type: trait_impl\n  source_name: X\n  severity: Fatal\n"),
        (ConfigErrorKind::InvalidValue, "r".to_string(), "severity".to_string())
    );
    assert_eq!(
        yaml_error("r:\n  type: trait_impl\n  source_name: \"(\"\n  severity: Warn\n"),
        (ConfigErrorKind::InvalidPattern, "r".to_string(), "(".to_string())
    );
    let (kind, rule, detail) = yaml_error("- just\n- a list\n");
    assert_eq!(kind, ConfigErrorKind::Syntax);
    assert_eq!(rule, "");
    assert!(!detail.is_empty());
}

#[test]
fn parse_failures_show_the_first_lines() {
    assert_eq!(
        LintConfigurationFactory::parse_failure_message("bad", "a\nb\n"),
        "Failed to parse RON content: bad\nFirst few lines of the content:\n1: a\n2: b"
    );
    assert_eq!(LintConfigurationFactory::parse_failure_message("bad", ""), "Failed to parse RON content: bad");
    let long: String = (1..=12).map(|i| format!("l{}\n", i)).collect();
    let message = LintConfigurationFactory::parse_failure_message("e", &long);
    assert!(message.ends_with("\n10: l10"));
    assert!(!message.contains("l11"));
}
