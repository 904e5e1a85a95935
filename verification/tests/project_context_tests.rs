use cargo_pup::project_context::{ContextError, ModuleInfo, ProjectContext, TraitInfo};

#[test]
fn test_new_creates_empty_context() {
    let context = ProjectContext::new();
    assert!(context.modules.is_empty());
    assert!(context.module_root.is_empty());
    assert!(context.traits.is_empty());
}

#[test]
fn test_with_data_conversion() {
    let modules = vec!["crate1::module1".to_string(), "crate1::module2".to_string()];

    let traits = vec![TraitInfo {
        name: "crate1::Trait1".to_string(),
        implementors: vec!["Type1".to_string()],
        applicable_lints: vec![],
    }];

    let context = ProjectContext::with_data(modules.clone(), "crate1".to_string(), traits);

    assert_eq!(context.modules.len(), 2);
    assert_eq!(context.modules[0].name, modules[0]);
    assert_eq!(context.modules[1].name, modules[1]);
    assert!(context.modules[0].applicable_lints.is_empty());
    assert!(context.modules[1].applicable_lints.is_empty());
}

#[test]
fn context_file_name_needs_a_crate_name() {
    let mut context = ProjectContext::new();
    context.modules = vec![ModuleInfo { name: "test::module_lint".to_string(), applicable_lints: vec![] }];
    assert!(matches!(context.context_file_name(), Err(ContextError::EmptyModuleRoot)));
    context.module_root = "my_crate".to_string();
    assert_eq!(context.context_file_name().ok().unwrap(), "my_crate_context.json");
}

#[test]
fn test_serialize_empty_module_root_error() {
    let mut context = ProjectContext::new();
    context.modules = vec![ModuleInfo { name: "test::module_lint".to_string(), applicable_lints: vec![] }];

    let result = context.context_file_name();
    assert!(result.is_err());
    assert!(result.unwrap_err().message().contains("empty module_root"));
}

#[test]
fn base_dir_context_is_written_under_crate_name() {
    let mut context = ProjectContext::with_base_dir("/tmp/contexts");
    assert!(matches!(context.file_location(), Err(ContextError::EmptyModuleRoot)));
    context.module_root = "my_crate".to_string();
    let (dir, name) = context.file_location().ok().unwrap();
    assert_eq!(dir, "/tmp/contexts");
    assert_eq!(name, "my_crate_context.json");
}

#[test]
fn same_data_differs_only_in_directory() {
    let traits = vec![TraitInfo {
        name: "c::T".to_string(),
        implementors: vec!["c::S".to_string()],
        applicable_lints: vec![],
    }];
    let modules = vec!["c::a".to_string(), "c::b".to_string()];
    let plain = ProjectContext::with_data(modules.clone(), "c".to_string(), traits.clone());
    let placed = ProjectContext::with_data_and_base_dir(modules, "c".to_string(), traits, "/tmp/elsewhere");
    assert_eq!(plain.modules.len(), placed.modules.len());
    for (x, y) in plain.modules.iter().zip(placed.modules.iter()) {
        assert_eq!(x.name, y.name);
        assert_eq!(x.applicable_lints, y.applicable_lints);
    }
    assert_eq!(plain.module_root, placed.module_root);
    assert_eq!(plain.traits[0].name, placed.traits[0].name);
    assert_eq!(plain.file_location().ok().unwrap(), (".pup".to_string(), "c_context.json".to_string()));
    assert_eq!(placed.file_location().ok().unwrap(), ("/tmp/elsewhere".to_string(), "c_context.json".to_string()));
}

#[test]
fn sorting_keeps_equal_names_in_order() {
    let mut context = ProjectContext::new();
    context.modules = vec![
        ModuleInfo { name: "b".to_string(), applicable_lints: vec!["first".to_string()] },
        ModuleInfo { name: "a".to_string(), applicable_lints: vec![] },
        ModuleInfo { name: "b".to_string(), applicable_lints: vec!["second".to_string()] },
    ];
    context.traits = vec![
        TraitInfo { name: "T".to_string(), implementors: vec!["One".to_string()], applicable_lints: vec![] },
        TraitInfo { name: "S".to_string(), implementors: vec![], applicable_lints: vec![] },
        TraitInfo { name: "T".to_string(), implementors: vec!["Two".to_string()], applicable_lints: vec![] },
    ];
    context.deduplicate();
    let names: Vec<&str> = context.modules.iter().map(|m| m.name.as_str()).collect();
    assert_eq!(names, vec!["a", "b", "b"]);
    assert_eq!(context.modules[1].applicable_lints, vec!["first".to_string()]);
    assert_eq!(context.modules[2].applicable_lints, vec!["second".to_string()]);
    assert_eq!(context.traits[0].name, "S");
    assert_eq!(context.traits[1].implementors, vec!["One".to_string()]);
    assert_eq!(context.traits[2].implementors, vec!["Two".to_string()]);
}

#[test]
fn aggregate_keeps_merge_order_of_equal_names() {
    let mut first = ProjectContext::new();
    first.module_root = "one".to_string();
    first.modules = vec![ModuleInfo { name: "m".to_string(), applicable_lints: vec!["from_one".to_string()] }];
    let mut second = ProjectContext::new();
    second.module_root = "two".to_string();
    second.modules = vec![
        ModuleInfo { name: "a".to_string(), applicable_lints: vec![] },
        ModuleInfo { name: "m".to_string(), applicable_lints: vec!["from_two".to_string()] },
    ];
    let (ctx, names) = ProjectContext::aggregate("/tmp/agg", vec![first, second]).unwrap();
    assert_eq!(names, vec!["one".to_string(), "two".to_string()]);
    assert_eq!(ctx.modules[0].name, "a");
    assert_eq!(ctx.modules[1].applicable_lints, vec!["from_one".to_string()]);
    assert_eq!(ctx.modules[2].applicable_lints, vec!["from_two".to_string()]);
}
