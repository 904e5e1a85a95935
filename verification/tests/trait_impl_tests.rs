use cargo_pup::lints::factory::{LintConfigurationFactory, LintFactory};
use cargo_pup::lints::trait_impl::TraitImplLintFactory;
use cargo_pup::project_context::{ProjectContext, TraitInfo};

const CONFIGURATION_YAML: &str = "
test_trait_constraint:
  type: trait_impl
  source_name: \"path_to::SomeTrait\"
  # ... must be named consistently
  name_must_match: \".*SomeTraitImpl\"
  # ... and must be private
  enforce_visibility: \"Private\"
  severity: Warn
";

#[test]
pub fn can_load_configuration_via_lint_factory() {
    TraitImplLintFactory::register();

    let results = LintConfigurationFactory::from_yaml(CONFIGURATION_YAML.to_string()).unwrap();

    assert_eq!(results.len(), 1);
}

#[test]
fn test_generate_config_with_traits() {
    let factory = TraitImplLintFactory::new();

    let traits = vec![
        TraitInfo {
            name: "test_crate::Display".to_string(),
            implementors: vec!["test_crate::User".to_string(), "test_crate::Product".to_string()],
            applicable_lints: vec![],
        },
        TraitInfo {
            name: "test_crate::Serialize".to_string(),
            implementors: vec!["test_crate::Config".to_string()],
            applicable_lints: vec![],
        },
    ];

    let context = ProjectContext::with_data(vec!["test_crate".to_string()], "test_crate".to_string(), traits);

    let configs = factory.generate_config(&context).unwrap();

    assert_eq!(configs.len(), 2, "Should generate 1 config per trait with implementations");

    let display_key = format!("{}_enforce_display_impl", context.module_root);
    let serialize_key = format!("{}_enforce_serialize_impl", context.module_root);

    assert!(configs.contains_key(&display_key), "Should contain key for Display trait with module root prefix");
    assert!(configs.contains_key(&serialize_key), "Should contain key for Serialize trait with module root prefix");

    let display_config = configs.get(&display_key).unwrap();

    assert!(display_config.contains("type: trait_impl"), "Config should specify trait_impl type");
    assert!(
        display_config.contains("source_name: \"test_crate::Display\""),
        "Config should have correct trait name"
    );
    assert!(
        display_config.contains("name_must_match: \".*DisplayImpl\""),
        "Config should derive pattern from trait name"
    );

    assert!(display_config.contains("Trait implementation lint for"), "Config should contain text from template");
}

#[test]
fn test_generate_config_fallback() {
    let factory = TraitImplLintFactory::new();

    let traits = vec![TraitInfo {
        name: "test_crate::EmptyTrait".to_string(),
        implementors: vec![],
        applicable_lints: vec![],
    }];

    let context = ProjectContext::with_data(vec!["test_crate".to_string()], "test_crate".to_string(), traits);

    let configs = factory.generate_config(&context).unwrap();

    assert_eq!(configs.len(), 1, "Should generate 1 fallback config");

    let fallback_key = format!("{}_enforce_trait_impl", context.module_root);
    assert!(configs.contains_key(&fallback_key), "Should contain fallback key with module root prefix");

    let config = configs.get(&fallback_key).unwrap();

    assert!(config.contains("Example trait implementation rule"), "Config should contain text from generic template");
    assert!(config.contains("source_name: \"core::example::Trait\""), "Config should use generic example trait");
}
