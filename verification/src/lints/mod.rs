//! Lint evaluation: deciding which configured rules an item violates, and
//! what to report for each violation.
pub mod finding;

pub mod struct_rules;
pub mod struct_lint;
pub mod rule;
pub mod module_lint;
pub mod no_panic;
pub mod no_allocation;
pub mod call_graph;
pub mod function_lint;
pub mod queries;
pub mod trait_impl;
pub mod config_map;
pub mod factory;
pub mod name_set;
pub mod runner;
