//! Lint configuration: what to match and which rules to apply.
pub mod function_lint;
pub mod lint_builder;
pub mod module_lint;
pub mod severity;
pub mod struct_lint;
pub mod pup_command;
