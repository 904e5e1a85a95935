use cargo_pup::config::lint_builder::{ConfiguredLint, LintBuilder};
use cargo_pup::config::module_lint::{ModuleLintExt, ModuleRule};
use cargo_pup::config::severity::Severity;
use cargo_pup::project_context::{ModuleInfo, ProjectContext, TraitInfo};

#[test]
fn test_generate_from_contexts() {
    // Create test project contexts
    let mut context1 = ProjectContext::new();
    context1.module_root = "crate1".to_string();
    context1.modules = vec![
        ModuleInfo {
            name: "crate1::module1".to_string(),
            applicable_lints: vec![],
        },
        ModuleInfo {
            name: "crate1::module2::submodule".to_string(),
            applicable_lints: vec![],
        },
    ];
    context1.traits = vec![TraitInfo {
        name: "crate1::Trait1".to_string(),
        implementors: vec!["crate1::Type1".to_string()],
        applicable_lints: vec![],
    }];

    let mut context2 = ProjectContext::new();
    context2.module_root = "crate2".to_string();
    context2.modules = vec![
        ModuleInfo {
            name: "crate2::module1".to_string(),
            applicable_lints: vec![],
        },
        ModuleInfo {
            name: "crate2::module2::submodule::nested".to_string(),
            applicable_lints: vec![],
        },
    ];
    context2.traits = vec![TraitInfo {
        name: "crate2::TraitX".to_string(),
        implementors: vec!["crate2::TypeX".to_string()],
        applicable_lints: vec![],
    }];

    // Generate lints from contexts
    let builder = LintBuilder::generate_from_contexts(&[context1, context2]);

    // Verify that lints were generated
    assert!(
        !builder.lints.is_empty(),
        "Builder should contain generated lints"
    );

    // Check that we have each lint type
    let module_lints = builder
        .lints
        .iter()
        .filter(|lint| matches!(lint, ConfiguredLint::Module(_)))
        .count();
    let struct_lints = builder
        .lints
        .iter()
        .filter(|lint| matches!(lint, ConfiguredLint::Struct(_)))
        .count();
    let function_lints = builder
        .lints
        .iter()
        .filter(|lint| matches!(lint, ConfiguredLint::Function(_)))
        .count();

    // Verify we have at least some lints
    assert!(!builder.lints.is_empty(), "Builder should contain at least some lints");
    
    // Log the lint types for debugging
    println!("Found {} module lints, {} struct lints, {} function lints", 
             module_lints, struct_lints, function_lints);
}

#[test]
fn builder_rules_carry_the_latest_severity() {
    let mut builder = LintBuilder::new();
    builder
        .module_lint()
        .lint_named("chain")
        .matching(|m| m.module(".*"))
        .with_severity(Severity::Error)
        .must_be_named("x".to_string())
        .with_severity(Severity::Warn)
        .no_wildcard_imports()
        .must_not_be_empty()
        .build();
    match &builder.lints[0] {
        ConfiguredLint::Module(m) => {
            assert_eq!(m.rules.len(), 3);
            assert!(matches!(&m.rules[0], ModuleRule::MustBeNamed(n, Severity::Error) if n == "x"));
            assert!(matches!(&m.rules[1], ModuleRule::NoWildcardImports(Severity::Warn)));
            assert!(matches!(&m.rules[2], ModuleRule::MustNotBeEmpty(Severity::Warn)));
        }
        _ => panic!("Expected a module lint"),
    }
}
