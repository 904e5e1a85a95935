//! What a lint reports: the lint, its severity, a message and a help text.
use vstd::prelude::*;
use crate::config::severity::Severity;
use crate::text::concat3;

verus! {

/// The lint under which a violation is reported.
#[derive(Debug, Clone, Copy, PartialEq, Eq, Structural)]
pub enum LintId {
    ModuleMustBeNamed,
    ModuleMustNotBeNamed,
    ModuleMustNotBeEmpty,
    ModuleRestrictImports,
    ModuleWildcardImport,
    ModuleDeniedItems,
    ModuleMustBeEmpty,
    ModuleMustHaveEmptyModFile,
    StructMustBeNamed,
    StructMustNotBeNamed,
    StructMustBePrivate,
    StructMustBePublic,
    StructMustBePubCrate,
    StructImplementsTrait,
    FunctionLint,
    TraitImpl,
}

/// Where a violation is reported.
#[derive(Debug, Clone, Copy, PartialEq, Eq, Structural)]
pub enum Site {
    /// The item under inspection (for structs and functions: its signature).
    Item,
    /// The item with this index among those nested in the inspected module.
    Nested(usize),
    /// The call or check with this index in the inspected function's body.
    Body(usize),
}

/// A violation to report.
#[derive(Debug)]
pub struct Finding {
    pub lint: LintId,
    pub severity: Severity,
    pub site: Site,
    pub message: String,
    pub help: String,
}

/// The mathematical model of a finding.
pub struct FindingView {
    pub lint: LintId,
    pub severity: Severity,
    pub site: Site,
    pub message: Seq<char>,
    pub help: Seq<char>,
}

impl View for Finding {
    type V = FindingView;

    open spec fn view(&self) -> FindingView {
        FindingView {
            lint: self.lint,
            severity: self.severity,
            site: self.site,
            message: self.message@,
            help: self.help@,
        }
    }
}

/// The models of a list of findings.
pub open spec fn finding_views(v: Seq<Finding>) -> Seq<FindingView> {
    v.map_values(|f: Finding| f@)
}

/// The note attached to every report: which configured rule applied.
pub fn rule_note(rule_name: &str) -> (r: String)
    ensures
        r@ == "Applied by cargo-pup rule '"@ + rule_name@ + "'."@,
{
    concat3("Applied by cargo-pup rule '", rule_name, "'.")
}

} // verus!
