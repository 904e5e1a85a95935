use cargo_pup::config::lint_builder::LintBuilder;
use cargo_pup::config::module_lint::{ModuleLintExt, ModuleRule};
use cargo_pup::config::severity::Severity;
use cargo_pup::lints::finding::{LintId, Site};
use cargo_pup::lints::module_lint::{ItemKindFacts, ModuleItemFacts, ModuleLint, NestedItem};
use cargo_pup::lints::rule::ArchitectureLintRule;

fn item(kind: ItemKindFacts, parent: &str) -> ModuleItemFacts {
    ModuleItemFacts {
        parent_path: parent.to_string(),
        kind,
        name: "thing".to_string(),
        full_path: format!("{}::thing", parent),
        nested: vec![],
        use_path: vec![],
        is_glob_use: false,
    }
}

fn nested(kind: ItemKindFacts, name: &str, file: &str, glob: bool) -> NestedItem {
    NestedItem { kind, name: name.to_string(), file_name: Some(file.to_string()), is_glob_use: glob }
}

#[test]
fn restricted_imports_report_both_lists() {
    let mut builder = LintBuilder::new();
    builder
        .module_lint()
        .lint_named("imports")
        .matching(|m| m.module("^app::api$"))
        .restrict_imports(Some(vec!["^std::collections".to_string()]), Some(vec!["^std::sync".to_string()]))
        .build();
    let lint = ModuleLint::new(&builder.lints[0]);
    let mut facts = item(ItemKindFacts::Use, "app::api");
    facts.use_path = vec!["std".to_string(), "sync".to_string(), "Mutex".to_string()];
    let found = lint.check_item(&facts);
    assert_eq!(found.len(), 2);
    assert_eq!(found[0].lint, LintId::ModuleRestrictImports);
    assert_eq!(
        found[0].message,
        "Use of module 'std::sync::Mutex' is not allowed; only [\"^std::collections\"] are permitted"
    );
    assert_eq!(found[0].help, "Use only allowed module imports");
    assert_eq!(found[1].message, "Use of module 'std::sync::Mutex' is denied");
    assert_eq!(found[1].help, "Remove this import");

    facts.use_path = vec!["std".to_string(), "collections".to_string(), "HashMap".to_string()];
    assert!(lint.check_item(&facts).is_empty());
}

#[test]
fn emptiness_rules_report_nested_definitions() {
    let mut builder = LintBuilder::new();
    builder
        .module_lint()
        .lint_named("empty")
        .matching(|m| m.module("^app$"))
        .with_severity(Severity::Error)
        .must_be_empty()
        .must_have_empty_mod_file()
        .build();
    let lint = ModuleLint::new(&builder.lints[0]);
    let mut facts = item(ItemKindFacts::Mod, "app");
    facts.nested = vec![
        nested(ItemKindFacts::Struct, "Foo", "src/thing/mod.rs", false),
        nested(ItemKindFacts::Impl { of_trait: true }, "<unnamed item>", "src/thing/mod.rs", false),
        nested(ItemKindFacts::Fn, "bar", "src/thing/other.rs", false),
        nested(ItemKindFacts::Use, "baz", "src/thing/mod.rs", false),
    ];
    let found = lint.check_item(&facts);
    assert_eq!(found.len(), 3);
    assert_eq!(found[0].lint, LintId::ModuleMustBeEmpty);
    assert_eq!(found[0].site, Site::Nested(0));
    assert_eq!(found[0].message, "Item 'Foo' not allowed in empty module");
    assert_eq!(found[1].site, Site::Nested(2));
    assert_eq!(found[1].message, "Item 'bar' not allowed in empty module");
    assert_eq!(found[2].lint, LintId::ModuleMustHaveEmptyModFile);
    assert_eq!(found[2].site, Site::Nested(0));
    assert_eq!(found[2].message, "Item 'Foo' disallowed in mod.rs due to empty-mod-file policy");
    assert_eq!(found[2].severity, Severity::Error);
}

#[test]
fn wildcard_imports_are_found_in_items_and_nested_items() {
    let mut builder = LintBuilder::new();
    builder
        .module_lint()
        .lint_named("wild")
        .matching(|m| m.module("^app"))
        .no_wildcard_imports()
        .must_not_be_empty()
        .build();
    let lint = ModuleLint::new(&builder.lints[0]);
    let mut glob = item(ItemKindFacts::Use, "app::x");
    glob.is_glob_use = true;
    let found = lint.check_item(&glob);
    assert_eq!(found.len(), 1);
    assert_eq!(found[0].lint, LintId::ModuleWildcardImport);
    assert_eq!(found[0].site, Site::Item);

    let mut module = item(ItemKindFacts::Mod, "app");
    module.nested = vec![
        nested(ItemKindFacts::Use, "a", "src/lib.rs", false),
        nested(ItemKindFacts::Use, "b", "src/lib.rs", true),
    ];
    let found = lint.check_item(&module);
    assert_eq!(found.len(), 1);
    assert_eq!(found[0].site, Site::Nested(1));

    let empty = item(ItemKindFacts::Mod, "app");
    let found = lint.check_item(&empty);
    assert_eq!(found.len(), 1);
    assert_eq!(found[0].lint, LintId::ModuleMustNotBeEmpty);
    assert_eq!(found[0].message, "Module must not be empty");
}

#[test]
fn denied_items_and_names() {
    let mut builder = LintBuilder::new();
    builder
        .module_lint()
        .lint_named("items")
        .matching(|m| m.module("^app::helpers$"))
        .denied_items(vec!["struct".to_string(), "module".to_string()])
        .must_be_named("^helpers_.*".to_string())
        .must_not_be_named("thing".to_string())
        .build();
    let lint = ModuleLint::new(&builder.lints[0]);
    let found = lint.check_item(&item(ItemKindFacts::Struct, "app::helpers"));
    assert_eq!(found.len(), 1);
    assert_eq!(found[0].lint, LintId::ModuleDeniedItems);
    assert_eq!(found[0].message, "struct 'thing' is not allowed in this module");

    let found = lint.check_item(&item(ItemKindFacts::Mod, "app::helpers"));
    assert_eq!(found.len(), 3);
    assert_eq!(found[0].message, "module 'thing' is not allowed in this module");
    assert_eq!(found[1].lint, LintId::ModuleMustBeNamed);
    assert_eq!(found[1].message, "Module must match pattern '^helpers_.*', found 'thing'");
    assert_eq!(found[1].help, "Rename this module to match the pattern '^helpers_.*'");
    assert_eq!(found[2].lint, LintId::ModuleMustNotBeNamed);
    assert_eq!(found[2].message, "Module must not match pattern 'thing'");

    assert!(lint.check_item(&item(ItemKindFacts::Fn, "app::helpers")).is_empty());
}

#[test]
fn modules_are_selected_by_their_own_path_too() {
    let mut builder = LintBuilder::new();
    builder
        .module_lint()
        .lint_named("sel")
        .matching(|m| m.module("^app::thing$"))
        .must_not_be_empty()
        .build();
    let lint = ModuleLint::new(&builder.lints[0]);
    assert_eq!(lint.check_item(&item(ItemKindFacts::Mod, "app")).len(), 1);
    assert!(lint.check_item(&item(ItemKindFacts::Struct, "app")).is_empty());
    assert!(lint.applies_to_module("app::thing"));
    assert!(!lint.applies_to_module("app"));
    assert!(!lint.applies_to_trait("app::thing"));
}

#[test]
fn invalid_module_pattern_matches_nothing() {
    let mut builder = LintBuilder::new();
    builder
        .module_lint()
        .lint_named("bad")
        .matching(|m| m.module("(unclosed"))
        .must_not_be_empty()
        .build();
    let lint = ModuleLint::new(&builder.lints[0]);
    assert!(!lint.matches_module("(unclosed"));
}

fn combined_lint(rule: ModuleRule) -> ModuleLint {
    let mut builder = LintBuilder::new();
    builder.module_lint().lint_named("combined").matching(|m| m.module("^app$")).add_rule(rule).build();
    ModuleLint::new(&builder.lints[0])
}

#[test]
fn and_rules_report_the_side_that_fails() {
    let lint = combined_lint(ModuleRule::And(
        Box::new(ModuleRule::MustNotBeEmpty(Severity::Error)),
        Box::new(ModuleRule::MustBeNamed("^[a-z]+$".to_string(), Severity::Warn)),
    ));
    let facts = item(ItemKindFacts::Mod, "app");
    let found = lint.check_item(&facts);
    assert_eq!(found.len(), 1);
    assert_eq!(found[0].lint, LintId::ModuleMustNotBeEmpty);
    assert_eq!(found[0].severity, Severity::Error);
    assert_eq!(found[0].message, "Module must not be empty");
    let mut full = item(ItemKindFacts::Mod, "app");
    full.nested = vec![nested(ItemKindFacts::Fn, "f", "src/app.rs", false)];
    assert!(lint.check_item(&full).is_empty());
}

#[test]
fn or_rules_report_only_when_both_sides_fail() {
    let lint = combined_lint(ModuleRule::Or(
        Box::new(ModuleRule::MustNotBeEmpty(Severity::Warn)),
        Box::new(ModuleRule::MustBeNamed("^x$".to_string(), Severity::Warn)),
    ));
    let facts = item(ItemKindFacts::Mod, "app");
    let found = lint.check_item(&facts);
    assert_eq!(found.len(), 2);
    assert_eq!(found[0].message, "Module must not be empty");
    assert_eq!(found[1].message, "Module must match pattern '^x$', found 'thing'");
    let mut named = item(ItemKindFacts::Mod, "app");
    named.name = "x".to_string();
    assert!(lint.check_item(&named).is_empty());
}

#[test]
fn not_rules_report_when_their_rule_passes() {
    let lint = combined_lint(ModuleRule::Not(Box::new(ModuleRule::MustBeNamed("^thing$".to_string(), Severity::Error))));
    let found = lint.check_item(&item(ItemKindFacts::Mod, "app"));
    assert_eq!(found.len(), 1);
    assert_eq!(found[0].lint, LintId::ModuleMustNotBeNamed);
    assert_eq!(found[0].message, "Module must not match pattern '^thing$'");
    let mut other = item(ItemKindFacts::Mod, "app");
    other.name = "other".to_string();
    assert!(lint.check_item(&other).is_empty());
    assert!(lint.check_item(&item(ItemKindFacts::Use, "app")).is_empty());
}

#[test]
fn plain_module_path_selects_only_that_module() {
    let mut builder = LintBuilder::new();
    builder
        .module_lint()
        .lint_named("exact")
        .matching(|m| m.module("crate::api"))
        .must_not_be_empty()
        .build();
    let lint = ModuleLint::new(&builder.lints[0]);
    assert!(lint.matches_module("crate::api"));
    assert!(!lint.matches_module("x::crate::api::y"));
    assert!(!lint.matches_module("crate::api2"));
    assert!(!lint.matches_module("crate"));
}

#[test]
fn module_pattern_is_still_a_regex() {
    let mut builder = LintBuilder::new();
    builder
        .module_lint()
        .lint_named("pattern")
        .matching(|m| m.module("^crate::api.*$"))
        .must_not_be_empty()
        .build();
    let lint = ModuleLint::new(&builder.lints[0]);
    assert!(lint.matches_module("crate::api"));
    assert!(lint.matches_module("crate::api2"));
    assert!(!lint.matches_module("x::crate::api"));
}
