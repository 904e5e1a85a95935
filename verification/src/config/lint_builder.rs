//! The lint builder: an ordered collection of configured lints.
use vstd::prelude::*;
use crate::config::function_lint::{
    FunctionLint,
    FunctionMatch,
    FunctionRule,
    ReturnTypePattern,
    is_function_lint_with,
    is_generated_function_lint,
    length_limit_lint,
    result_error_function_lint,
};
use crate::config::module_lint::{
    ModuleLint,
    ModuleMatch,
    ModuleRule,
    empty_mod_lint,
    is_module_lint_with,
    naming_convention_lint,
    result_error_lint,
};
use crate::config::severity::Severity;
use crate::config::struct_lint::{StructLint, StructMatch, StructRule};
use crate::project_context::{ProjectContext, copy_strings};

verus! {

/// One configured lint, of any of the three kinds.
#[derive(Debug)]
pub enum ConfiguredLint {
    Module(ModuleLint),
    Struct(StructLint),
    Function(FunctionLint),
}

/// The configuration under construction: lints in the order they were added.
#[derive(Debug)]
pub struct LintBuilder {
    pub lints: Vec<ConfiguredLint>,
}

/// Lint kinds that can derive a configuration from project contexts.
pub trait GenerateFromContext {
    /// Appends the lints generated for `contexts` to `builder`, keeping the lints
    /// already there.
    fn generate_from_contexts(contexts: &[ProjectContext], builder: &mut LintBuilder)
        ensures
            final(builder).lints@.len() >= old(builder).lints@.len(),
            forall|i: int|
                0 <= i < old(builder).lints@.len() ==> final(builder).lints@[i] == old(builder).lints@[i],
    ;
}

/// An optional string list, by its elements.
pub open spec fn opt_strings(o: Option<Vec<String>>) -> Option<Seq<String>> {
    match o {
        Some(v) => Some(v@),
        None => None,
    }
}

/// Two module rules that agree in every field, lists compared by their elements.
pub open spec fn same_module_rule(a: ModuleRule, b: ModuleRule) -> bool
    decreases a,
{
    match a {
        ModuleRule::RestrictImports { allowed_only, denied, severity } => b matches ModuleRule::RestrictImports {
            allowed_only: a2,
            denied: d2,
            severity: s2,
        } && opt_strings(allowed_only) == opt_strings(a2) && opt_strings(denied) == opt_strings(d2) && severity
            == s2,
        ModuleRule::DeniedItems { items, severity } => b matches ModuleRule::DeniedItems { items: i2, severity: s2 }
            && items@ == i2@ && severity == s2,
        ModuleRule::And(x, y) => b matches ModuleRule::And(x2, y2) && same_module_rule(*x, *x2) && same_module_rule(
            *y,
            *y2,
        ),
        ModuleRule::Or(x, y) => b matches ModuleRule::Or(x2, y2) && same_module_rule(*x, *x2) && same_module_rule(
            *y,
            *y2,
        ),
        ModuleRule::Not(x) => b matches ModuleRule::Not(x2) && same_module_rule(*x, *x2),
        _ => a == b,
    }
}

/// Two module rule lists of equal length whose rules agree one by one.
pub open spec fn same_module_rules(a: Seq<ModuleRule>, b: Seq<ModuleRule>) -> bool {
    a.len() == b.len() && forall|i: int| 0 <= i < a.len() ==> #[trigger] same_module_rule(a[i], b[i])
}

/// Two configured lints of the same kind that agree in name, matcher and rules.
pub open spec fn same_lint(a: ConfiguredLint, b: ConfiguredLint) -> bool {
    match a {
        ConfiguredLint::Module(x) => b matches ConfiguredLint::Module(y) && x.name == y.name && x.matches == y.matches
            && same_module_rules(x.rules@, y.rules@),
        ConfiguredLint::Struct(x) => b matches ConfiguredLint::Struct(y) && x.name == y.name && x.matches == y.matches
            && x.rules@ == y.rules@,
        ConfiguredLint::Function(x) => b matches ConfiguredLint::Function(y) && x.name == y.name && x.matches
            == y.matches && x.rules@ == y.rules@,
    }
}

/// A copy of a module matcher.
pub fn copy_module_match(m: &ModuleMatch) -> (r: ModuleMatch)
    ensures
        r == *m,
    decreases m,
{
    match m {
        ModuleMatch::Module(s) => ModuleMatch::Module(s.clone()),
        ModuleMatch::AndMatches(a, b) => ModuleMatch::AndMatches(
            Box::new(copy_module_match(a)),
            Box::new(copy_module_match(b)),
        ),
        ModuleMatch::OrMatches(a, b) => ModuleMatch::OrMatches(
            Box::new(copy_module_match(a)),
            Box::new(copy_module_match(b)),
        ),
        ModuleMatch::NotMatch(a) => ModuleMatch::NotMatch(Box::new(copy_module_match(a))),
    }
}

/// A copy of an optional string list.
pub fn copy_opt_strings(o: &Option<Vec<String>>) -> (r: Option<Vec<String>>)
    ensures
        opt_strings(r) == opt_strings(*o),
{
    match o {
        Some(v) => Some(copy_strings(v)),
        None => None,
    }
}

/// A copy of a module rule.
pub fn copy_module_rule(rule: &ModuleRule) -> (r: ModuleRule)
    ensures
        same_module_rule(r, *rule),
    decreases rule,
{
    match rule {
        ModuleRule::MustBeNamed(s, sev) => ModuleRule::MustBeNamed(s.clone(), *sev),
        ModuleRule::MustNotBeNamed(s, sev) => ModuleRule::MustNotBeNamed(s.clone(), *sev),
        ModuleRule::MustNotBeEmpty(sev) => ModuleRule::MustNotBeEmpty(*sev),
        ModuleRule::MustBeEmpty(sev) => ModuleRule::MustBeEmpty(*sev),
        ModuleRule::MustHaveEmptyModFile(sev) => ModuleRule::MustHaveEmptyModFile(*sev),
        ModuleRule::RestrictImports { allowed_only, denied, severity } => ModuleRule::RestrictImports {
            allowed_only: copy_opt_strings(allowed_only),
            denied: copy_opt_strings(denied),
            severity: *severity,
        },
        ModuleRule::NoWildcardImports(sev) => ModuleRule::NoWildcardImports(*sev),
        ModuleRule::DeniedItems { items, severity } => ModuleRule::DeniedItems {
            items: copy_strings(items),
            severity: *severity,
        },
        ModuleRule::And(a, b) => ModuleRule::And(Box::new(copy_module_rule(a)), Box::new(copy_module_rule(b))),
        ModuleRule::Or(a, b) => ModuleRule::Or(Box::new(copy_module_rule(a)), Box::new(copy_module_rule(b))),
        ModuleRule::Not(a) => ModuleRule::Not(Box::new(copy_module_rule(a))),
    }
}

/// A copy of a struct matcher.
pub fn copy_struct_match(m: &StructMatch) -> (r: StructMatch)
    ensures
        r == *m,
    decreases m,
{
    match m {
        StructMatch::Name(s) => StructMatch::Name(s.clone()),
        StructMatch::HasAttribute(s) => StructMatch::HasAttribute(s.clone()),
        StructMatch::ImplementsTrait(s) => StructMatch::ImplementsTrait(s.clone()),
        StructMatch::AndMatches(a, b) => StructMatch::AndMatches(
            Box::new(copy_struct_match(a)),
            Box::new(copy_struct_match(b)),
        ),
        StructMatch::OrMatches(a, b) => StructMatch::OrMatches(
            Box::new(copy_struct_match(a)),
            Box::new(copy_struct_match(b)),
        ),
        StructMatch::NotMatch(a) => StructMatch::NotMatch(Box::new(copy_struct_match(a))),
    }
}

/// A copy of a struct rule.
pub fn copy_struct_rule(rule: &StructRule) -> (r: StructRule)
    ensures
        r == *rule,
    decreases rule,
{
    match rule {
        StructRule::MustBeNamed(s, sev) => StructRule::MustBeNamed(s.clone(), *sev),
        StructRule::MustNotBeNamed(s, sev) => StructRule::MustNotBeNamed(s.clone(), *sev),
        StructRule::MustBePrivate(sev) => StructRule::MustBePrivate(*sev),
        StructRule::MustBePublic(sev) => StructRule::MustBePublic(*sev),
        StructRule::MustBePubCrate(sev) => StructRule::MustBePubCrate(*sev),
        StructRule::ImplementsTrait(s, sev) => StructRule::ImplementsTrait(s.clone(), *sev),
        StructRule::And(a, b) => StructRule::And(Box::new(copy_struct_rule(a)), Box::new(copy_struct_rule(b))),
        StructRule::Or(a, b) => StructRule::Or(Box::new(copy_struct_rule(a)), Box::new(copy_struct_rule(b))),
        StructRule::Not(a) => StructRule::Not(Box::new(copy_struct_rule(a))),
    }
}

/// A copy of a return type pattern.
pub fn copy_return_pattern(p: &ReturnTypePattern) -> (r: ReturnTypePattern)
    ensures
        r == *p,
{
    match p {
        ReturnTypePattern::Result => ReturnTypePattern::Result,
        ReturnTypePattern::Option => ReturnTypePattern::Option,
        ReturnTypePattern::Named(s) => ReturnTypePattern::Named(s.clone()),
        ReturnTypePattern::Regex(s) => ReturnTypePattern::Regex(s.clone()),
        ReturnTypePattern::ResultWithErrorImpl => ReturnTypePattern::ResultWithErrorImpl,
        ReturnTypePattern::SelfValue => ReturnTypePattern::SelfValue,
        ReturnTypePattern::SelfRef => ReturnTypePattern::SelfRef,
        ReturnTypePattern::SelfMutRef => ReturnTypePattern::SelfMutRef,
    }
}

/// A copy of a function matcher.
pub fn copy_function_match(m: &FunctionMatch) -> (r: FunctionMatch)
    ensures
        r == *m,
    decreases m,
{
    match m {
        FunctionMatch::NameEquals(s) => FunctionMatch::NameEquals(s.clone()),
        FunctionMatch::NameRegex(s) => FunctionMatch::NameRegex(s.clone()),
        FunctionMatch::InModule(s) => FunctionMatch::InModule(s.clone()),
        FunctionMatch::ReturnsType(p) => FunctionMatch::ReturnsType(copy_return_pattern(p)),
        FunctionMatch::IsAsync => FunctionMatch::IsAsync,
        FunctionMatch::AndMatches(a, b) => FunctionMatch::AndMatches(
            Box::new(copy_function_match(a)),
            Box::new(copy_function_match(b)),
        ),
        FunctionMatch::OrMatches(a, b) => FunctionMatch::OrMatches(
            Box::new(copy_function_match(a)),
            Box::new(copy_function_match(b)),
        ),
        FunctionMatch::NotMatch(a) => FunctionMatch::NotMatch(Box::new(copy_function_match(a))),
    }
}

/// A copy of a module rule list.
pub fn copy_module_rules(v: &Vec<ModuleRule>) -> (r: Vec<ModuleRule>)
    ensures
        same_module_rules(r@, v@),
{
    let mut out: Vec<ModuleRule> = Vec::new();
    let mut i: usize = 0;
    while i < v.len()
        invariant
            i <= v@.len(),
            out@.len() == i,
            forall|k: int| 0 <= k < i ==> #[trigger] same_module_rule(out@[k], v@[k]),
        decreases v.len() - i,
    {
        out.push(copy_module_rule(&v[i]));
        i = i + 1;
    }
    out
}

/// A copy of a struct rule list.
pub fn copy_struct_rules(v: &Vec<StructRule>) -> (r: Vec<StructRule>)
    ensures
        r@ == v@,
{
    let mut out: Vec<StructRule> = Vec::new();
    let mut i: usize = 0;
    while i < v.len()
        invariant
            i <= v@.len(),
            out@ =~= v@.take(i as int),
        decreases v.len() - i,
    {
        out.push(copy_struct_rule(&v[i]));
        assert(v@.take(i + 1) =~= v@.take(i as int).push(v@[i as int]));
        i = i + 1;
    }
    assert(v@.take(v@.len() as int) =~= v@);
    out
}

/// A copy of a function rule list.
pub fn copy_function_rules(v: &Vec<FunctionRule>) -> (r: Vec<FunctionRule>)
    ensures
        r@ == v@,
{
    let mut out: Vec<FunctionRule> = Vec::new();
    let mut i: usize = 0;
    while i < v.len()
        invariant
            i <= v@.len(),
            out@ =~= v@.take(i as int),
        decreases v.len() - i,
    {
        out.push(v[i]);
        assert(v@.take(i + 1) =~= v@.take(i as int).push(v@[i as int]));
        i = i + 1;
    }
    assert(v@.take(v@.len() as int) =~= v@);
    out
}

/// A copy of a configured lint.
pub fn copy_lint(lint: &ConfiguredLint) -> (r: ConfiguredLint)
    ensures
        same_lint(r, *lint),
{
    match lint {
        ConfiguredLint::Module(m) => ConfiguredLint::Module(
            ModuleLint {
                name: m.name.clone(),
                matches: copy_module_match(&m.matches),
                rules: copy_module_rules(&m.rules),
            },
        ),
        ConfiguredLint::Struct(s) => ConfiguredLint::Struct(
            StructLint {
                name: s.name.clone(),
                matches: copy_struct_match(&s.matches),
                rules: copy_struct_rules(&s.rules),
            },
        ),
        ConfiguredLint::Function(f) => ConfiguredLint::Function(
            FunctionLint {
                name: f.name.clone(),
                matches: copy_function_match(&f.matches),
                rules: copy_function_rules(&f.rules),
            },
        ),
    }
}

impl Clone for ModuleMatch {
    fn clone(&self) -> (r: Self)
        ensures
            r == *self,
    {
        copy_module_match(self)
    }
}

impl Clone for ModuleRule {
    fn clone(&self) -> (r: Self)
        ensures
            same_module_rule(r, *self),
    {
        copy_module_rule(self)
    }
}

impl Clone for StructMatch {
    fn clone(&self) -> (r: Self)
        ensures
            r == *self,
    {
        copy_struct_match(self)
    }
}

impl Clone for StructRule {
    fn clone(&self) -> (r: Self)
        ensures
            r == *self,
    {
        copy_struct_rule(self)
    }
}

impl Clone for ReturnTypePattern {
    fn clone(&self) -> (r: Self)
        ensures
            r == *self,
    {
        copy_return_pattern(self)
    }
}

impl Clone for FunctionMatch {
    fn clone(&self) -> (r: Self)
        ensures
            r == *self,
    {
        copy_function_match(self)
    }
}

impl Default for LintBuilder {
    fn default() -> (r: Self)
        ensures
            r.lints@.len() == 0,
    {
        LintBuilder { lints: Vec::new() }
    }
}

impl LintBuilder {
    /// An empty builder.
    pub fn new() -> (r: Self)
        ensures
            r.lints@.len() == 0,
    {
        LintBuilder { lints: Vec::new() }
    }

    /// Appends `lint`.
    pub fn push(&mut self, lint: ConfiguredLint)
        ensures
            final(self).lints@ == old(self).lints@.push(lint),
    {
        self.lints.push(lint);
    }

    /// A copy of every configured lint, in order.
    pub fn build(&self) -> (r: Vec<ConfiguredLint>)
        ensures
            r@.len() == self.lints@.len(),
            forall|i: int| 0 <= i < r@.len() ==> #[trigger] same_lint(r@[i], self.lints@[i]),
    {
        let mut out: Vec<ConfiguredLint> = Vec::new();
        let mut i: usize = 0;
        while i < self.lints.len()
            invariant
                i <= self.lints@.len(),
                out@.len() == i,
                forall|k: int| 0 <= k < i ==> #[trigger] same_lint(out@[k], self.lints@[k]),
            decreases self.lints.len() - i,
        {
            out.push(copy_lint(&self.lints[i]));
            i = i + 1;
        }
        out
    }

    /// The configuration generated for `contexts`: the module lints first (see
    /// `ModuleLint::generate_from_contexts`), then the struct lints (none), then
    /// the function lints (see `FunctionLint::generate_from_contexts`).
    pub fn generate_from_contexts(contexts: &[ProjectContext]) -> (r: Self)
        ensures
            ({
                let m = 2 + if contexts@.len() > 0 {
                    1int
                } else {
                    0int
                };
                &&& r.lints@.len() == m + 2 + contexts@.len()
                &&& is_module_lint_with(r.lints@[0], |l| empty_mod_lint(l))
                &&& is_module_lint_with(r.lints@[1], |l| result_error_lint(l))
                &&& contexts@.len() > 0 ==> is_module_lint_with(r.lints@[2], |l| naming_convention_lint(l))
                &&& is_function_lint_with(r.lints@[m], |f| length_limit_lint(f))
                &&& is_function_lint_with(r.lints@[m + 1], |f| result_error_function_lint(f))
                &&& forall|i: int|
                    0 <= i < contexts@.len() ==> is_generated_function_lint(
                        #[trigger] r.lints@[m + 2 + i],
                        contexts@[i].module_root@,
                    )
            }),
    {
        let mut builder = LintBuilder::new();
        ModuleLint::generate_from_contexts(contexts, &mut builder);
        StructLint::generate_from_contexts(contexts, &mut builder);
        FunctionLint::generate_from_contexts(contexts, &mut builder);
        builder
    }
}

/// The severity in effect after the first `n` steps of a constraint builder
/// chain, where a step is `Some(s)` for `with_severity(s)` and `None` for a
/// method that adds a rule: that of the latest `with_severity`, `Warn` if none.
pub open spec fn severity_after(steps: Seq<Option<Severity>>, n: int) -> Severity
    decreases n,
{
    if n <= 0 {
        Severity::Warn
    } else {
        match steps[n - 1] {
            Some(s) => s,
            None => severity_after(steps, n - 1),
        }
    }
}

/// The rules the first `n` steps of a chain add, in call order: a rule step
/// `i` adds `makers[i]` applied to the severity in effect before it.
pub open spec fn chain_rules<R>(steps: Seq<Option<Severity>>, makers: Seq<spec_fn(Severity) -> R>, n: int) -> Seq<R>
    decreases n,
{
    if n <= 0 {
        Seq::empty()
    } else if steps[n - 1] is None {
        chain_rules(steps, makers, n - 1).push((makers[n - 1])(severity_after(steps, n - 1)))
    } else {
        chain_rules(steps, makers, n - 1)
    }
}

/// One step of a constraint builder, on (rules, current severity), as the
/// builders' contracts give it: `with_severity(s)` keeps the rules and sets the
/// severity; a rule method appends the rule made with the current severity.
pub open spec fn chain_step<R>(
    step: Option<Severity>,
    make: spec_fn(Severity) -> R,
    before: (Seq<R>, Severity),
    after: (Seq<R>, Severity),
) -> bool {
    match step {
        Some(s) => after.0 == before.0 && after.1 == s,
        None => after.0 == before.0.push(make(before.1)) && after.1 == before.1,
    }
}

/// A constraint builder chain (of module, struct or function lints), started
/// with no rules at severity `Warn` as `matches` and `matching` start it, and
/// continued by `with_severity` calls and rule methods, holds its rules in call
/// order, each rule carrying the severity of the latest `with_severity` before
/// it, or `Warn` if there is none.
pub proof fn lemma_builder_chain<R>(
    steps: Seq<Option<Severity>>,
    makers: Seq<spec_fn(Severity) -> R>,
    states: Seq<(Seq<R>, Severity)>,
)
    requires
        makers.len() == steps.len(),
        states.len() == steps.len() + 1,
        states[0].0 == Seq::<R>::empty(),
        states[0].1 == Severity::Warn,
        forall|i: int| 0 <= i < steps.len() ==> chain_step(steps[i], makers[i], #[trigger] states[i], states[i + 1]),
    ensures
        forall|n: int|
            #![trigger states[n]]
            0 <= n <= steps.len() ==> states[n].0 == chain_rules(steps, makers, n) && states[n].1 == severity_after(
                steps,
                n,
            ),
{
    assert forall|n: int|
        #![trigger states[n]]
        0 <= n <= steps.len() implies states[n].0 == chain_rules(steps, makers, n) && states[n].1 == severity_after(
            steps,
            n,
        ) by {
        lemma_chain_prefix(steps, makers, states, n);
    }
}

proof fn lemma_chain_prefix<R>(
    steps: Seq<Option<Severity>>,
    makers: Seq<spec_fn(Severity) -> R>,
    states: Seq<(Seq<R>, Severity)>,
    n: int,
)
    requires
        makers.len() == steps.len(),
        states.len() == steps.len() + 1,
        states[0].0 == Seq::<R>::empty(),
        states[0].1 == Severity::Warn,
        forall|i: int| 0 <= i < steps.len() ==> chain_step(steps[i], makers[i], #[trigger] states[i], states[i + 1]),
        0 <= n <= steps.len(),
    ensures
        states[n].0 == chain_rules(steps, makers, n),
        states[n].1 == severity_after(steps, n),
    decreases n,
{
    if n > 0 {
        lemma_chain_prefix(steps, makers, states, n - 1);
        assert(chain_step(steps[n - 1], makers[n - 1], states[n - 1], states[n]));
    }
}

} // verus!
