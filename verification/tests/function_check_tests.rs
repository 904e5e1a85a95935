use cargo_pup::config::function_lint::{FunctionLintExt, FunctionRule};
use cargo_pup::config::lint_builder::LintBuilder;
use cargo_pup::config::severity::Severity;
use cargo_pup::lints::call_graph::{CallFacts, CallGraph, Terminator};
use cargo_pup::lints::finding::{LintId, Site};
use cargo_pup::lints::function_lint::{FunctionFacts, FunctionLint, SelfReturn};

fn facts(name: &str) -> FunctionFacts {
    FunctionFacts {
        name: name.to_string(),
        module: "app::core".to_string(),
        return_adt_path: Some("core::result::Result".to_string()),
        return_type: "std::result::Result<u8, i32>".to_string(),
        return_arg_count: 2,
        error_type: "i32".to_string(),
        error_implements_error: false,
        self_return: SelfReturn::NotSelf,
        is_async: false,
        body_lines: Some(12),
        mir: Some(0),
    }
}

fn call(path: &str, callee: Option<usize>, fn_args: Vec<usize>) -> Terminator {
    Terminator::Call(CallFacts { path: path.to_string(), callee, fn_args })
}

fn empty_graph() -> CallGraph {
    CallGraph { bodies: vec![Some(vec![])] }
}

#[test]
fn length_and_error_rules_report_with_numbers_and_types() {
    let mut builder = LintBuilder::new();
    builder
        .function_lint()
        .lint_named("short")
        .matching(|m| m.in_module("^app::core$").and(m.returns_result()))
        .max_length(10)
        .with_severity(Severity::Error)
        .enforce_error_trait_implementation()
        .add_rule(FunctionRule::MustNotExist(Severity::Warn))
        .build();
    let mut lint = FunctionLint::new(&builder.lints[0]);
    let found = lint.check_function(&facts("load"), &empty_graph());
    assert_eq!(found.len(), 3);
    assert_eq!(found[0].lint, LintId::FunctionLint);
    assert_eq!(found[0].severity, Severity::Warn);
    assert_eq!(found[0].message, "Function exceeds maximum length of 10 lines with 12 lines");
    assert_eq!(found[0].help, "Consider breaking this function into smaller parts");
    assert_eq!(found[1].severity, Severity::Error);
    assert_eq!(found[1].message, "Error type 'i32' in Result does not implement Error trait");
    assert_eq!(found[2].message, "Function 'load' is forbidden by lint rule");
    assert_eq!(found[2].help, "Remove this function to satisfy the architectural rule");
}

#[test]
fn unselected_function_gets_no_report() {
    let mut builder = LintBuilder::new();
    builder
        .function_lint()
        .lint_named("named")
        .matching(|m| m.name("other"))
        .add_rule(FunctionRule::MustNotExist(Severity::Warn))
        .build();
    let mut lint = FunctionLint::new(&builder.lints[0]);
    assert!(lint.check_function(&facts("load"), &empty_graph()).is_empty());
}

#[test]
fn return_type_matchers() {
    let mut builder = LintBuilder::new();
    builder.function_lint().lint_named("a").matching(|m| m.returns_type("Config")).build();
    builder.function_lint().lint_named("b").matching(|m| m.returns_option()).build();
    builder.function_lint().lint_named("c").matching(|m| m.returns_type_regex("^Vec<.*>$")).build();
    builder.function_lint().lint_named("d").matching(|m| m.returns_self_ref()).build();
    builder.function_lint().lint_named("e").matching(|m| m.returns_result_with_error_impl()).build();
    builder.function_lint().lint_named("f").matching(|m| m.is_async().not()).build();
    let lints: Vec<FunctionLint> = builder.lints.iter().map(FunctionLint::new).collect();

    let mut f = facts("make");
    f.return_adt_path = Some("app::config::Config".to_string());
    f.return_type = "app::config::Config".to_string();
    assert!(lints[0].matches_function(&f));
    assert!(!lints[1].matches_function(&f));

    f.return_adt_path = None;
    f.return_type = "Vec<u8>".to_string();
    assert!(lints[2].matches_function(&f));
    assert!(!lints[0].matches_function(&f));

    f.self_return = SelfReturn::SharedRef;
    assert!(lints[3].matches_function(&f));
    f.self_return = SelfReturn::MutRef;
    assert!(!lints[3].matches_function(&f));

    let mut r = facts("run");
    assert!(!lints[4].matches_function(&r));
    r.error_implements_error = true;
    assert!(lints[4].matches_function(&r));
    assert!(lints[5].matches_function(&r));
    r.is_async = true;
    assert!(!lints[5].matches_function(&r));
}

#[test]
fn invalid_module_pattern_matches_only_itself() {
    let mut builder = LintBuilder::new();
    builder.function_lint().lint_named("m").matching(|m| m.in_module("app::(core")).build();
    builder.function_lint().lint_named("n").matching(|m| m.name_regex("(load")).build();
    let in_module = FunctionLint::new(&builder.lints[0]);
    let by_name = FunctionLint::new(&builder.lints[1]);
    let mut f = facts("(load");
    assert!(!in_module.matches_function(&f));
    f.module = "app::(core".to_string();
    assert!(in_module.matches_function(&f));
    assert!(!by_name.matches_function(&f));
}

#[test]
fn no_allocation_reports_transitive_allocation() {
    let graph = CallGraph {
        bodies: vec![
            Some(vec![
                Terminator::Other,
                call("app::helper", Some(1), vec![]),
            ]),
            Some(vec![call("alloc::vec::Vec::<T, A>::push", None, vec![])]),
        ],
    };
    let mut builder = LintBuilder::new();
    builder
        .function_lint()
        .lint_named("no_alloc")
        .matching(|m| m.name("load"))
        .add_rule(FunctionRule::NoAllocation(Severity::Error))
        .build();
    let mut lint = FunctionLint::new(&builder.lints[0]);
    let found = lint.check_function(&facts("load"), &graph);
    assert_eq!(found.len(), 1);
    assert_eq!(found[0].site, Site::Body(1));
    assert_eq!(found[0].message, "Function allocates heap memory: calls function that allocates: app::helper");
    assert_eq!(found[0].help, "Remove heap allocations to satisfy the NoAllocation rule");
    assert_eq!(lint.allocation_cache, vec![None, Some(true)]);

    let mut quiet = facts("load");
    quiet.mir = None;
    assert!(lint.check_function(&quiet, &graph).is_empty());
}

#[test]
fn plain_module_paths_name_exactly_one_module() {
    let mut builder = LintBuilder::new();
    builder
        .function_lint()
        .lint_named("exact")
        .matching(|m| m.in_module("core::utils"))
        .add_rule(FunctionRule::MustNotExist(Severity::Warn))
        .build();
    builder
        .function_lint()
        .lint_named("regex")
        .matching(|m| m.in_module("^.*::core::utils$"))
        .add_rule(FunctionRule::MustNotExist(Severity::Warn))
        .build();
    let exact = FunctionLint::new(&builder.lints[0]);
    let regex = FunctionLint::new(&builder.lints[1]);
    let mut f = facts("helper");
    f.module = "core::utils".to_string();
    assert!(exact.matches_function(&f));
    f.module = "app::core::utils".to_string();
    assert!(!exact.matches_function(&f));
    assert!(regex.matches_function(&f));
}
