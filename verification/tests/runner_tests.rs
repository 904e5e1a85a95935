use cargo_pup::lints::runner::Mode;
use cargo_pup::project_context::{ProjectContext, TraitInfo};

// Test the Mode enum
#[test]
fn test_mode_debug_and_eq() {
    // Test Mode Debug and PartialEq implementations
    let check_mode = Mode::Check;
    let print_modules_mode = Mode::PrintModules;
    let print_traits_mode = Mode::PrintTraits;
    let generate_config_mode = Mode::GenerateConfig;

    // Verify Debug formatting
    assert_eq!(format!("{:?}", check_mode), "Check");
    assert_eq!(format!("{:?}", print_modules_mode), "PrintModules");
    assert_eq!(format!("{:?}", print_traits_mode), "PrintTraits");
    assert_eq!(format!("{:?}", generate_config_mode), "GenerateConfig");

    // Verify PartialEq
    assert_eq!(check_mode, Mode::Check);
    assert_eq!(print_modules_mode, Mode::PrintModules);
    assert_eq!(print_traits_mode, Mode::PrintTraits);
    assert_eq!(generate_config_mode, Mode::GenerateConfig);

    assert_ne!(check_mode, print_modules_mode);
    assert_ne!(check_mode, print_traits_mode);
    assert_ne!(check_mode, generate_config_mode);
}

// Test the Clone trait for Mode
#[test]
fn test_mode_clone() {
    let modes = vec![
        Mode::Check,
        Mode::PrintModules,
        Mode::PrintTraits,
        Mode::GenerateConfig,
    ];

    for mode in &modes {
        let cloned_mode = mode.clone();
        assert_eq!(*mode, cloned_mode);
    }
}

// Test creating a ProjectContext
#[test]
fn test_create_project_context() {
    // Create a project context
    let context = ProjectContext::with_data(
        vec!["test::module1".to_string(), "test::module2".to_string()],
        "test".to_string(),
        vec![TraitInfo {
            name: "test::Trait1".to_string(),
            implementors: vec!["Type1".to_string(), "Type2".to_string()],
            applicable_lints: vec![],
        }],
    );

    // Verify the context properties
    assert_eq!(context.module_root, "test");
    assert_eq!(context.modules.len(), 2);
    assert_eq!(context.modules[0], "test::module1");
    assert_eq!(context.modules[1], "test::module2");
    assert_eq!(context.traits.len(), 1);
    assert_eq!(context.traits[0].name, "test::Trait1");
    assert_eq!(context.traits[0].implementors.len(), 2);
}
