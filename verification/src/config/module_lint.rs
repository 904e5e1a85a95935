//! Module lints: which modules to match, and the rules they must follow.
use vstd::prelude::*;
use vstd::string::*;
use crate::config::lint_builder::{ConfiguredLint, GenerateFromContext, LintBuilder};
use crate::config::severity::Severity;
use crate::project_context::ProjectContext;

verus! {

/// How to match modules for linting.
#[derive(Debug)]
pub enum ModuleMatch {
    /// A module: an exact module path, or, when it holds regular expression
    /// characters, a regex on the module's path.
    Module(String),
    /// Both patterns must match.
    AndMatches(Box<ModuleMatch>, Box<ModuleMatch>),
    /// Either pattern must match.
    OrMatches(Box<ModuleMatch>, Box<ModuleMatch>),
    /// Inverts the match.
    NotMatch(Box<ModuleMatch>),
}

/// A complete module lint: a name, what it matches and its rules.
#[derive(Debug)]
pub struct ModuleLint {
    pub name: String,
    pub matches: ModuleMatch,
    pub rules: Vec<ModuleRule>,
}

/// Rules that apply to matched modules.
#[derive(Debug)]
pub enum ModuleRule {
    /// The module name must match this regex.
    MustBeNamed(String, Severity),
    /// The module name must not match this regex.
    MustNotBeNamed(String, Severity),
    /// The module must contain at least one item.
    MustNotBeEmpty(Severity),
    /// The module must contain no definitions.
    MustBeEmpty(Severity),
    /// A `mod.rs` file may only re-export other modules.
    MustHaveEmptyModFile(Severity),
    /// Which imports are allowed or denied (regexes on the imported path).
    RestrictImports { allowed_only: Option<Vec<String>>, denied: Option<Vec<String>>, severity: Severity },
    /// No wildcard imports (`use path::*`).
    NoWildcardImports(Severity),
    /// Kinds of items that must not be defined in the module.
    DeniedItems { items: Vec<String>, severity: Severity },
    /// Both rules must pass.
    And(Box<ModuleRule>, Box<ModuleRule>),
    /// Either rule must pass.
    Or(Box<ModuleRule>, Box<ModuleRule>),
    /// Inverts the rule.
    Not(Box<ModuleRule>),
}

/// Entry point of the fluent module matcher DSL.
pub struct ModuleMatcher;

/// A node of a module matcher expression.

pub enum ModuleMatchNode {
    Leaf(ModuleMatch),
    And(Box<ModuleMatchNode>, Box<ModuleMatchNode>),
    Or(Box<ModuleMatchNode>, Box<ModuleMatchNode>),
    Not(Box<ModuleMatchNode>),
}

impl ModuleMatcher {
    /// Modules selected by `module`: an exact module path (such as
    /// `crate::api`), or, when it holds regular expression characters, a regex
    /// on the module's fully qualified path.
    pub fn module(&self, module: &str) -> (r: ModuleMatchNode)
        ensures
            r matches ModuleMatchNode::Leaf(ModuleMatch::Module(s)) && s@ == module@,
    {
        ModuleMatchNode::Leaf(ModuleMatch::Module(String::from_str(module)))
    }
}

impl ModuleMatchNode {
    /// The matcher this expression denotes.
    pub open spec fn built(self) -> ModuleMatch
        decreases self,
    {
        match self {
            ModuleMatchNode::Leaf(m) => m,
            ModuleMatchNode::And(a, b) => ModuleMatch::AndMatches(Box::new(a.built()), Box::new(b.built())),
            ModuleMatchNode::Or(a, b) => ModuleMatch::OrMatches(Box::new(a.built()), Box::new(b.built())),
            ModuleMatchNode::Not(m) => ModuleMatch::NotMatch(Box::new(m.built())),
        }
    }

    /// Both matchers must match.
    pub fn and(self, other: ModuleMatchNode) -> (r: Self)
        ensures
            r == ModuleMatchNode::And(Box::new(self), Box::new(other)),
    {
        ModuleMatchNode::And(Box::new(self), Box::new(other))
    }

    /// Either matcher must match.
    pub fn or(self, other: ModuleMatchNode) -> (r: Self)
        ensures
            r == ModuleMatchNode::Or(Box::new(self), Box::new(other)),
    {
        ModuleMatchNode::Or(Box::new(self), Box::new(other))
    }

    /// Inverts the matcher.
    #[allow(clippy::should_implement_trait)]
    pub fn not(self) -> (r: Self)
        ensures
            r == ModuleMatchNode::Not(Box::new(self)),
    {
        ModuleMatchNode::Not(Box::new(self))
    }

    /// Converts the expression into the matcher it denotes.
    pub fn build(self) -> (r: ModuleMatch)
        ensures
            r == self.built(),
        decreases self,
    {
        match self {
            ModuleMatchNode::Leaf(m) => m,
            ModuleMatchNode::And(a, b) => {
                let x = a.build();
                let y = b.build();
                ModuleMatch::AndMatches(Box::new(x), Box::new(y))
            },
            ModuleMatchNode::Or(a, b) => {
                let x = a.build();
                let y = b.build();
                ModuleMatch::OrMatches(Box::new(x), Box::new(y))
            },
            ModuleMatchNode::Not(m) => {
                let x = m.build();
                ModuleMatch::NotMatch(Box::new(x))
            },
        }
    }
}

/// Runs a matcher DSL expression and converts its result into a matcher.
pub fn matcher<F>(f: F) -> (r: ModuleMatch) where F: FnOnce(&ModuleMatcher) -> ModuleMatchNode
    requires
        f.requires((&ModuleMatcher,)),
    ensures
        exists|n: ModuleMatchNode| f.ensures((&ModuleMatcher,), n) && r == n.built(),
{
    let m = ModuleMatcher;
    let node = f(&m);
    node.build()
}

/// Adds module linting to a lint builder.
pub trait ModuleLintExt {
    /// Starts a module lint.
    fn module_lint(&mut self) -> ModuleLintBuilder<'_>;
}

impl ModuleLintExt for LintBuilder {
    fn module_lint(&mut self) -> (r: ModuleLintBuilder<'_>)
        ensures
            *r.parent == *old(self),
            *final(self) == *final(r.parent),
    {
        ModuleLintBuilder { parent: self }
    }
}

/// First step of a module lint: it must be named.
pub struct ModuleLintBuilder<'a> {
    pub parent: &'a mut LintBuilder,
}

impl<'a> ModuleLintBuilder<'a> {
    /// Names the lint.
    pub fn lint_named(self, name: &str) -> (r: ModuleNamedBuilder<'a>)
        ensures
            r.name@ == name@,
            *r.parent == *old(self.parent),
            *final(self.parent) == *final(r.parent),
    {
        ModuleNamedBuilder { parent: self.parent, name: String::from_str(name) }
    }
}

/// Second step of a module lint: what it matches.
pub struct ModuleNamedBuilder<'a> {
    pub parent: &'a mut LintBuilder,
    pub name: String,
}

impl<'a> ModuleNamedBuilder<'a> {
    /// Uses `m` as the matcher; no rules yet, severity `Warn`.
    pub fn matches(self, m: ModuleMatch) -> (r: ModuleConstraintBuilder<'a>)
        ensures
            r.match_ == m,
            r.rules@.len() == 0,
            r.current_severity == Severity::Warn,
            r.name == self.name,
            *r.parent == *old(self.parent),
            *final(self.parent) == *final(r.parent),
    {
        ModuleConstraintBuilder {
            parent: self.parent,
            match_: m,
            rules: Vec::new(),
            current_severity: Severity::default(),
            name: self.name,
        }
    }

    /// Uses the matcher built by the DSL expression `f`.
    pub fn matching<F>(self, f: F) -> (r: ModuleConstraintBuilder<'a>) where
        F: FnOnce(&ModuleMatcher) -> ModuleMatchNode,

        requires
            f.requires((&ModuleMatcher,)),
        ensures
            exists|n: ModuleMatchNode| f.ensures((&ModuleMatcher,), n) && r.match_ == n.built(),
            r.rules@.len() == 0,
            r.current_severity == Severity::Warn,
            r.name == self.name,
            *r.parent == *old(self.parent),
            *final(self.parent) == *final(r.parent),
    {
        let m = matcher(f);
        self.matches(m)
    }
}

/// Third step of a module lint: its rules.
pub struct ModuleConstraintBuilder<'a> {
    pub parent: &'a mut LintBuilder,
    pub match_: ModuleMatch,
    pub rules: Vec<ModuleRule>,
    pub current_severity: Severity,
    pub name: String,
}

/// `after` is `before` with `rule` added and everything else unchanged.
pub open spec fn module_rule_added(before: ModuleConstraintBuilder, after: ModuleConstraintBuilder, rule: ModuleRule) -> bool {
    &&& after.rules@ == before.rules@.push(rule)
    &&& after.match_ == before.match_
    &&& after.current_severity == before.current_severity
    &&& after.name == before.name
}

impl<'a> ModuleConstraintBuilder<'a> {
    fn add_rule_internal(&mut self, rule: ModuleRule)
        ensures
            final(self).rules@ == old(self).rules@.push(rule),
            final(self).match_ == old(self).match_,
            final(self).current_severity == old(self).current_severity,
            final(self).name == old(self).name,
            *final(self).parent == *old(self).parent,
            *final(final(self).parent) == *final(old(self).parent),
    {
        self.rules.push(rule);
    }

    /// Adds `rule`.
    pub fn add_rule(self, rule: ModuleRule) -> (r: Self)
        ensures
            module_rule_added(self, r, rule),
            *r.parent == *old(self.parent),
            *final(self.parent) == *final(r.parent),
    {
        let mut this = self;
        this.add_rule_internal(rule);
        this
    }

    /// Finishes the lint, adding it to the parent builder.
    pub fn build(self) -> (r: &'a mut LintBuilder)
        ensures
            r.lints@ == old(self.parent).lints@.push(
                ConfiguredLint::Module(ModuleLint { name: self.name, matches: self.match_, rules: self.rules }),
            ),
            *final(self.parent) == *final(r),
    {
        let lint = ConfiguredLint::Module(ModuleLint { name: self.name, matches: self.match_, rules: self.rules });
        self.parent.push(lint);
        self.parent
    }

    /// Uses `severity` for the rules added after this.
    pub fn with_severity(self, severity: Severity) -> (r: Self)
        ensures
            r.current_severity == severity,
            r.rules == self.rules,
            r.match_ == self.match_,
            r.name == self.name,
            *r.parent == *old(self.parent),
            *final(self.parent) == *final(r.parent),
    {
        let mut this = self;
        this.current_severity = severity;
        this
    }

    /// The module must contain at least one item.
    pub fn must_not_be_empty(self) -> (r: Self)
        ensures
            module_rule_added(self, r, ModuleRule::MustNotBeEmpty(self.current_severity)),
            *r.parent == *old(self.parent),
            *final(self.parent) == *final(r.parent),
    {
        let mut this = self;
        let sev = this.current_severity;
        this.add_rule_internal(ModuleRule::MustNotBeEmpty(sev));
        this
    }

    /// The module must contain no definitions.
    pub fn must_be_empty(self) -> (r: Self)
        ensures
            module_rule_added(self, r, ModuleRule::MustBeEmpty(self.current_severity)),
            *r.parent == *old(self.parent),
            *final(self.parent) == *final(r.parent),
    {
        let mut this = self;
        let sev = this.current_severity;
        this.add_rule_internal(ModuleRule::MustBeEmpty(sev));
        this
    }

    /// A `mod.rs` file may only re-export other modules.
    pub fn must_have_empty_mod_file(self) -> (r: Self)
        ensures
            module_rule_added(self, r, ModuleRule::MustHaveEmptyModFile(self.current_severity)),
            *r.parent == *old(self.parent),
            *final(self.parent) == *final(r.parent),
    {
        let mut this = self;
        let sev = this.current_severity;
        this.add_rule_internal(ModuleRule::MustHaveEmptyModFile(sev));
        this
    }

    /// No wildcard imports.
    pub fn no_wildcard_imports(self) -> (r: Self)
        ensures
            module_rule_added(self, r, ModuleRule::NoWildcardImports(self.current_severity)),
            *r.parent == *old(self.parent),
            *final(self.parent) == *final(r.parent),
    {
        let mut this = self;
        let sev = this.current_severity;
        this.add_rule_internal(ModuleRule::NoWildcardImports(sev));
        this
    }

    /// Restricts imports to `allowed_only` (when given) and away from `denied`
    /// (when given).
    pub fn restrict_imports(self, allowed_only: Option<Vec<String>>, denied: Option<Vec<String>>) -> (r: Self)
        ensures
            module_rule_added(
                self,
                r,
                ModuleRule::RestrictImports { allowed_only, denied, severity: self.current_severity },
            ),
            *r.parent == *old(self.parent),
            *final(self.parent) == *final(r.parent),
    {
        let mut this = self;
        let sev = this.current_severity;
        this.add_rule_internal(ModuleRule::RestrictImports { allowed_only, denied, severity: sev });
        this
    }

    /// The module name must match `name`.
    pub fn must_be_named(self, name: String) -> (r: Self)
        ensures
            module_rule_added(self, r, ModuleRule::MustBeNamed(name, self.current_severity)),
            *r.parent == *old(self.parent),
            *final(self.parent) == *final(r.parent),
    {
        let mut this = self;
        let sev = this.current_severity;
        this.add_rule_internal(ModuleRule::MustBeNamed(name, sev));
        this
    }

    /// The module name must not match `name`.
    pub fn must_not_be_named(self, name: String) -> (r: Self)
        ensures
            module_rule_added(self, r, ModuleRule::MustNotBeNamed(name, self.current_severity)),
            *r.parent == *old(self.parent),
            *final(self.parent) == *final(r.parent),
    {
        let mut this = self;
        let sev = this.current_severity;
        this.add_rule_internal(ModuleRule::MustNotBeNamed(name, sev));
        this
    }

    /// Item kinds that must not be defined in the module.
    pub fn denied_items(self, items: Vec<String>) -> (r: Self)
        ensures
            module_rule_added(self, r, ModuleRule::DeniedItems { items, severity: self.current_severity }),
            *r.parent == *old(self.parent),
            *final(self.parent) == *final(r.parent),
    {
        let mut this = self;
        let sev = this.current_severity;
        this.add_rule_internal(ModuleRule::DeniedItems { items, severity: sev });
        this
    }
}

/// The generated lint that `mod.rs` files be empty, as an error.
pub open spec fn empty_mod_lint(lint: ModuleLint) -> bool {
    &&& lint.name@ == "empty_mod_rule"@
    &&& lint.matches matches ModuleMatch::Module(p) && p@ == ".*mod\\.rs$"@
    &&& lint.rules@ == seq![ModuleRule::MustBeEmpty(Severity::Error)]
}

/// The `Result` types with a primitive error type.
pub open spec fn primitive_error_results() -> Seq<Seq<char>> {
    seq![
        "Result<*, i8>"@,
        "Result<*, i16>"@,
        "Result<*, i32>"@,
        "Result<*, i64>"@,
        "Result<*, u8>"@,
        "Result<*, u16>"@,
        "Result<*, u32>"@,
        "Result<*, u64>"@,
        "Result<*, bool>"@,
        "Result<*, char>"@,
    ]
}

/// The generated lint that denies, everywhere, `Result`s with a primitive
/// error type, as an error.
pub open spec fn result_error_lint(lint: ModuleLint) -> bool {
    &&& lint.name@ == "result_error_trait"@
    &&& lint.matches matches ModuleMatch::Module(p) && p@ == ".*"@
    &&& lint.rules@.len() == 1
    &&& lint.rules@[0] matches ModuleRule::DeniedItems { items, severity } && items@.map_values(|s: String| s@)
        == primitive_error_results() && severity == Severity::Error
}

/// The generated lint that module names be lower snake case and that there be
/// no wildcard imports, as warnings.
pub open spec fn naming_convention_lint(lint: ModuleLint) -> bool {
    &&& lint.name@ == "module_naming_convention"@
    &&& lint.matches matches ModuleMatch::Module(p) && p@ == ".*"@
    &&& lint.rules@.len() == 2
    &&& lint.rules@[0] matches ModuleRule::MustBeNamed(p, sev) && p@ == "^[a-z][a-z0-9_]*$"@ && sev == Severity::Warn
    &&& lint.rules@[1] == ModuleRule::NoWildcardImports(Severity::Warn)
}

/// A configured lint that is a module lint satisfying `pred`.
pub open spec fn is_module_lint_with(lint: ConfiguredLint, pred: spec_fn(ModuleLint) -> bool) -> bool {
    lint matches ConfiguredLint::Module(m) && pred(m)
}

fn primitive_error_result_list() -> (r: Vec<String>)
    ensures
        r@.map_values(|s: String| s@) == primitive_error_results(),
{
    let mut v: Vec<String> = Vec::new();
    v.push(String::from_str("Result<*, i8>"));
    v.push(String::from_str("Result<*, i16>"));
    v.push(String::from_str("Result<*, i32>"));
    v.push(String::from_str("Result<*, i64>"));
    v.push(String::from_str("Result<*, u8>"));
    v.push(String::from_str("Result<*, u16>"));
    v.push(String::from_str("Result<*, u32>"));
    v.push(String::from_str("Result<*, u64>"));
    v.push(String::from_str("Result<*, bool>"));
    v.push(String::from_str("Result<*, char>"));
    assert(v@.map_values(|s: String| s@) =~= primitive_error_results());
    v
}

impl GenerateFromContext for ModuleLint {
    /// Adds the lint that `mod.rs` files be empty and the lint that denies
    /// primitive error types, then, when there is any context, the naming
    /// convention lint.
    fn generate_from_contexts(contexts: &[ProjectContext], builder: &mut LintBuilder)
        ensures
            final(builder).lints@.len() == old(builder).lints@.len() + 2 + (if contexts@.len() > 0 {
                1int
            } else {
                0int
            }),
            forall|i: int| 0 <= i < old(builder).lints@.len() ==> final(builder).lints@[i] == old(builder).lints@[i],
            is_module_lint_with(final(builder).lints@[old(builder).lints@.len() as int], |m| empty_mod_lint(m)),
            is_module_lint_with(
                final(builder).lints@[old(builder).lints@.len() + 1int],
                |m| result_error_lint(m),
            ),
            contexts@.len() > 0 ==> is_module_lint_with(
                final(builder).lints@[old(builder).lints@.len() + 2int],
                |m| naming_convention_lint(m),
            ),
    {
        let mut empty_rules: Vec<ModuleRule> = Vec::new();
        empty_rules.push(ModuleRule::MustBeEmpty(Severity::Error));
        assert(empty_rules@ =~= seq![ModuleRule::MustBeEmpty(Severity::Error)]);
        let empty_mod = ModuleLint {
            name: String::from_str("empty_mod_rule"),
            matches: ModuleMatch::Module(String::from_str(".*mod\\.rs$")),
            rules: empty_rules,
        };
        builder.push(ConfiguredLint::Module(empty_mod));
        let mut result_rules: Vec<ModuleRule> = Vec::new();
        result_rules.push(ModuleRule::DeniedItems { items: primitive_error_result_list(), severity: Severity::Error });
        let result_error = ModuleLint {
            name: String::from_str("result_error_trait"),
            matches: ModuleMatch::Module(String::from_str(".*")),
            rules: result_rules,
        };
        builder.push(ConfiguredLint::Module(result_error));
        if contexts.len() > 0 {
            let mut naming_rules: Vec<ModuleRule> = Vec::new();
            naming_rules.push(ModuleRule::MustBeNamed(String::from_str("^[a-z][a-z0-9_]*$"), Severity::Warn));
            naming_rules.push(ModuleRule::NoWildcardImports(Severity::Warn));
            let naming = ModuleLint {
                name: String::from_str("module_naming_convention"),
                matches: ModuleMatch::Module(String::from_str(".*")),
                rules: naming_rules,
            };
            builder.push(ConfiguredLint::Module(naming));
        }
    }
}

} // verus!
