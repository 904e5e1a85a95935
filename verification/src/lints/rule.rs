//! What every configured lint offers besides checking items.
use vstd::prelude::*;

verus! {

/// A configured lint, ready to check items.
pub trait ArchitectureLintRule {
    /// The name of the configured rule, used in reports.
    fn name(&self) -> String;

    /// Whether the lint constrains the module `namespace` itself.
    fn applies_to_module(&self, namespace: &str) -> bool;

    /// Whether the lint constrains the trait `trait_path` itself.
    fn applies_to_trait(&self, trait_path: &str) -> bool;
}

} // verus!
