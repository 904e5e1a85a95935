use cargo_pup::config::pup_command::{
    check_args, invalid_project_message, is_pup_workspace_manifest, missing_manifest_message, project_dir_of,
    pup_invocation, PathKind,
};
use cargo_pup::lints::config_map::ConfigMap;
use cargo_pup::lints::name_set::insert_pair;
use cargo_pup::lints::queries::{
    get_canonical_trait_name, get_canonical_type_name, get_full_canonical_trait_name, get_full_module_name,
};
use cargo_pup::project_context::{is_context_file_name, ContextError, ProjectContext, TraitInfo};
use cargo_pup::text::{
    debug_strings, join_strings, last_segment, lines_of, replace_str, usize_to_decimal,
};

#[test]
fn canonical_names_drop_generic_parameters() {
    assert_eq!(get_canonical_trait_name("Iterator<'a, T>"), "Iterator");
    assert_eq!(get_canonical_trait_name("Display"), "Display");
    assert_eq!(get_full_canonical_trait_name("std", "Iterator<Item = u8>"), "std::Iterator");
    assert_eq!(get_canonical_type_name("Vec<String>"), "Vec");
    assert_eq!(get_canonical_type_name(""), "");
}

#[test]
fn full_module_names_prefix_the_crate() {
    assert_eq!(get_full_module_name("my_crate", ""), "my_crate");
    assert_eq!(get_full_module_name("my_crate", "a::b"), "my_crate::a::b");
}

#[test]
fn config_map_insert_replaces_and_get_reads_back() {
    let mut m = ConfigMap::new();
    assert_eq!(m.len(), 0);
    m.insert("a".to_string(), "1".to_string());
    m.insert("b".to_string(), "2".to_string());
    m.insert("a".to_string(), "3".to_string());
    assert_eq!(m.len(), 2);
    assert!(m.contains_key("a"));
    assert!(!m.contains_key("c"));
    assert_eq!(m.get("a").map(|s| s.as_str()), Some("3"));
    assert_eq!(m.get("b").map(|s| s.as_str()), Some("2"));
    assert_eq!(m.get("c"), None);
}

#[test]
fn check_arguments_name_the_manifest_only_when_given() {
    assert!(check_args(None).is_empty());
    assert_eq!(check_args(Some("/p/Cargo.toml")), vec!["--manifest-path".to_string(), "/p/Cargo.toml".to_string()]);
}

#[test]
fn pup_invocation_prefers_the_workspace_build() {
    let extra = vec!["--manifest-path".to_string(), "x".to_string()];
    assert_eq!(
        pup_invocation(None, "check", "/tmp/c.ron", &extra),
        vec!["pup", "check", "--pup-config", "/tmp/c.ron", "--manifest-path", "x"]
    );
    assert_eq!(
        pup_invocation(Some("/w/Cargo.toml"), "check", "/tmp/c.ron", &vec![]),
        vec!["run", "--manifest-path", "/w/Cargo.toml", "--bin", "cargo-pup", "--", "check", "--pup-config", "/tmp/c.ron"]
    );
}

#[test]
fn workspace_manifest_detection() {
    assert!(is_pup_workspace_manifest("[package]\nname = \"cargo-pup\"\n"));
    assert!(is_pup_workspace_manifest("[workspace]\nmembers = [\"cargo_pup_common\"]\n"));
    assert!(!is_pup_workspace_manifest("[workspace]\nmembers = [\"other\"]\n"));
    assert!(!is_pup_workspace_manifest("[package]\nname = \"other\"\n"));
}

#[test]
fn project_paths_are_resolved_to_directories() {
    let manifest = PathKind::File(Some("Cargo.toml".to_string()));
    assert_eq!(project_dir_of("/p/Cargo.toml", Some("/p"), &manifest, "p/Cargo.toml"), Ok("/p".to_string()));
    assert_eq!(
        project_dir_of("/Cargo.toml", None, &manifest, "/Cargo.toml"),
        Err("Cargo.toml file has no parent directory".to_string())
    );
    let other_file = PathKind::File(Some("main.rs".to_string()));
    assert_eq!(
        project_dir_of("/p/main.rs", Some("/p"), &other_file, "main.rs"),
        Err("Path main.rs exists but is not a Cargo.toml file".to_string())
    );
    assert_eq!(project_dir_of("/p", None, &PathKind::Dir, "p"), Ok("/p".to_string()));
    assert_eq!(
        project_dir_of("/dev/x", None, &PathKind::Other, "/dev/x"),
        Err("Path /dev/x exists but is neither a file nor directory".to_string())
    );
    assert_eq!(missing_manifest_message("/p"), "No Cargo.toml found in directory: /p");
    assert_eq!(invalid_project_message(true, "/p"), "Invalid manifest path: /p");
    assert_eq!(
        invalid_project_message(false, "/p"),
        "Current working directory is not a valid Cargo project: /p"
    );
}

#[test]
fn context_file_names_need_a_crate_name() {
    let empty = ProjectContext::new();
    assert_eq!(empty.context_file_name(), Err(ContextError::EmptyModuleRoot));
    let ctx = ProjectContext::with_data(vec!["app".to_string()], "app".to_string(), vec![]);
    assert_eq!(ctx.context_file_name(), Ok("app_context.json".to_string()));
    assert!(is_context_file_name("app_context.json"));
    assert!(!is_context_file_name("app.json"));
}

#[test]
fn merging_appends_modules_and_traits() {
    let mut a = ProjectContext::with_base_dir("/tmp/d");
    let b = ProjectContext::with_data(
        vec!["b".to_string(), "b::x".to_string()],
        "b".to_string(),
        vec![TraitInfo { name: "b::T".to_string(), implementors: vec!["b::S".to_string()], applicable_lints: vec![] }],
    );
    a.merge(&b);
    assert_eq!(a.module_root, "b");
    assert_eq!(a.base_dir, "/tmp/d");
    assert_eq!(a.modules.len(), 2);
    assert_eq!(a.modules[1].name, "b::x");
    assert_eq!(a.traits.len(), 1);
    let c = ProjectContext::with_data(vec!["c".to_string()], "c".to_string(), vec![]);
    a.merge(&c);
    assert_eq!(a.module_root, "b");
    assert_eq!(a.modules.len(), 3);
}

#[test]
fn aggregating_contexts_sorts_and_lists_crates_once() {
    let first = ProjectContext::with_data(vec!["zeta".to_string(), "alpha".to_string()], "zeta".to_string(), vec![]);
    let second = ProjectContext::with_data(vec!["mid".to_string()], "mid".to_string(), vec![]);
    let third = ProjectContext::with_data(vec!["zeta::inner".to_string()], "zeta".to_string(), vec![]);
    let (ctx, names) = ProjectContext::aggregate("/tmp/agg", vec![first, second, third]).unwrap();
    assert_eq!(ctx.base_dir, "/tmp/agg");
    assert_eq!(ctx.module_root, "zeta");
    let modules: Vec<&str> = ctx.modules.iter().map(|m| m.name.as_str()).collect();
    assert_eq!(modules, vec!["alpha", "mid", "zeta", "zeta::inner"]);
    assert_eq!(names, vec!["zeta".to_string(), "mid".to_string()]);
    assert_eq!(ProjectContext::aggregate("/tmp/agg", vec![]).err(), Some(ContextError::NoContextFiles));
}

#[test]
fn pair_sets_stay_sorted_without_duplicates() {
    let mut v: Vec<(String, String)> = Vec::new();
    insert_pair(&mut v, ("b".to_string(), "x".to_string()));
    insert_pair(&mut v, ("a".to_string(), "y".to_string()));
    insert_pair(&mut v, ("b".to_string(), "x".to_string()));
    insert_pair(&mut v, ("a".to_string(), "b".to_string()));
    assert_eq!(
        v,
        vec![
            ("a".to_string(), "b".to_string()),
            ("a".to_string(), "y".to_string()),
            ("b".to_string(), "x".to_string())
        ]
    );
}

#[test]
fn text_helpers_compute_exact_strings() {
    assert_eq!(replace_str("a::b::c", "::", "_"), "a_b_c");
    assert_eq!(replace_str("aaa", "aa", "b"), "ba");
    assert_eq!(join_strings(&vec!["x".to_string(), "y".to_string(), "z".to_string()], ", "), "x, y, z");
    assert_eq!(join_strings(&vec![], ", "), "");
    assert_eq!(last_segment("std::fmt::Display"), "Display");
    assert_eq!(last_segment("Display"), "Display");
    assert_eq!(last_segment("a::"), "");
    assert_eq!(lines_of("one\r\ntwo\n\nthree\n"), vec!["one", "two", "", "three"]);
    assert!(lines_of("").is_empty());
    assert_eq!(usize_to_decimal(0), "0");
    assert_eq!(usize_to_decimal(4021), "4021");
    assert_eq!(debug_strings(&vec!["a".to_string(), "b\"c".to_string()]), "[\"a\", \"b\\\"c\"]");
    assert_eq!(debug_strings(&vec![]), "[]");
}
