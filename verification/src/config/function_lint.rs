//! Function lints: which functions to match, and the rules they must follow.
use vstd::prelude::*;
use vstd::string::*;
use crate::config::lint_builder::{ConfiguredLint, GenerateFromContext, LintBuilder};
use crate::config::severity::Severity;
use crate::project_context::ProjectContext;
use crate::text::concat2;

verus! {

/// Patterns for matching function return types.
#[derive(Debug)]
pub enum ReturnTypePattern {
    /// Any `Result<T, E>`.
    Result,
    /// Any `Option<T>`.
    Option,
    /// A specific named type.
    Named(String),
    /// Types whose name matches a regex.
    Regex(String),
    /// `Result<T, E>` where `E` implements the `Error` trait.
    ResultWithErrorImpl,
    /// `Self` by value.
    SelfValue,
    /// `&Self`.
    SelfRef,
    /// `&mut Self`.
    SelfMutRef,
}

/// How to match functions for linting.
#[derive(Debug)]
pub enum FunctionMatch {
    /// Functions with exactly this name.
    NameEquals(String),
    /// Functions whose name matches this regex.
    NameRegex(String),
    /// Functions inside a module: an exact module path, or, when it holds
    /// regular expression characters, a regex on the module's full path.
    InModule(String),
    /// Functions whose return type matches this pattern.
    ReturnsType(ReturnTypePattern),
    /// Async functions.
    IsAsync,
    /// Both patterns must match.
    AndMatches(Box<FunctionMatch>, Box<FunctionMatch>),
    /// Either pattern must match.
    OrMatches(Box<FunctionMatch>, Box<FunctionMatch>),
    /// Inverts the match.
    NotMatch(Box<FunctionMatch>),
}

/// A complete function lint: a name, what it matches and its rules.
#[derive(Debug)]
pub struct FunctionLint {
    pub name: String,
    pub matches: FunctionMatch,
    pub rules: Vec<FunctionRule>,
}

/// Rules that apply to matched functions.
#[derive(Debug, Clone, Copy, PartialEq, Eq, Structural)]
pub enum FunctionRule {
    /// Maximum function length in lines.
    MaxLength(usize, Severity),
    /// The error type of a returned `Result` must implement `Error`.
    ResultErrorMustImplementError(Severity),
    /// Matched functions must not exist.
    MustNotExist(Severity),
    /// Matched functions must not allocate on the heap.
    NoAllocation(Severity),
}

/// Entry point of the fluent function matcher DSL.
pub struct FunctionMatcher;

/// A node of a function matcher expression.

pub enum FunctionMatchNode {
    Leaf(FunctionMatch),
    And(Box<FunctionMatchNode>, Box<FunctionMatchNode>),
    Or(Box<FunctionMatchNode>, Box<FunctionMatchNode>),
    Not(Box<FunctionMatchNode>),
}

/// A leaf node holding `m`.
pub open spec fn leaf_with(r: FunctionMatchNode, m: FunctionMatch) -> bool {
    r == FunctionMatchNode::Leaf(m)
}

impl FunctionMatcher {
    /// Functions with exactly this name.
    pub fn name(&self, name: &str) -> (r: FunctionMatchNode)
        ensures
            r matches FunctionMatchNode::Leaf(FunctionMatch::NameEquals(s)) && s@ == name@,
    {
        FunctionMatchNode::Leaf(FunctionMatch::NameEquals(String::from_str(name)))
    }

    /// Functions whose names match this regex.
    pub fn name_regex(&self, pattern: &str) -> (r: FunctionMatchNode)
        ensures
            r matches FunctionMatchNode::Leaf(FunctionMatch::NameRegex(s)) && s@ == pattern@,
    {
        FunctionMatchNode::Leaf(FunctionMatch::NameRegex(String::from_str(pattern)))
    }

    /// Functions in a module: `module` is an exact module path (such as
    /// `core::utils`), or, when it holds regular expression characters, a
    /// regex on the module's fully-qualified name (such as
    /// `^core::(utils|models)::[a-zA-Z]+$`).
    pub fn in_module(&self, module: &str) -> (r: FunctionMatchNode)
        ensures
            r matches FunctionMatchNode::Leaf(FunctionMatch::InModule(s)) && s@ == module@,
    {
        FunctionMatchNode::Leaf(FunctionMatch::InModule(String::from_str(module)))
    }

    /// Functions returning a `Result`.
    pub fn returns_result(&self) -> (r: FunctionMatchNode)
        ensures
            leaf_with(r, FunctionMatch::ReturnsType(ReturnTypePattern::Result)),
    {
        FunctionMatchNode::Leaf(FunctionMatch::ReturnsType(ReturnTypePattern::Result))
    }

    /// Functions returning a `Result` whose error type implements `Error`.
    pub fn returns_result_with_error_impl(&self) -> (r: FunctionMatchNode)
        ensures
            leaf_with(r, FunctionMatch::ReturnsType(ReturnTypePattern::ResultWithErrorImpl)),
    {
        FunctionMatchNode::Leaf(FunctionMatch::ReturnsType(ReturnTypePattern::ResultWithErrorImpl))
    }

    /// Functions returning an `Option`.
    pub fn returns_option(&self) -> (r: FunctionMatchNode)
        ensures
            leaf_with(r, FunctionMatch::ReturnsType(ReturnTypePattern::Option)),
    {
        FunctionMatchNode::Leaf(FunctionMatch::ReturnsType(ReturnTypePattern::Option))
    }

    /// Functions returning a specific named type.
    pub fn returns_type(&self, name: &str) -> (r: FunctionMatchNode)
        ensures
            r matches FunctionMatchNode::Leaf(FunctionMatch::ReturnsType(ReturnTypePattern::Named(s))) && s@
                == name@,
    {
        FunctionMatchNode::Leaf(FunctionMatch::ReturnsType(ReturnTypePattern::Named(String::from_str(name))))
    }

    /// Functions returning a type whose name matches a regex.
    pub fn returns_type_regex(&self, pattern: &str) -> (r: FunctionMatchNode)
        ensures
            r matches FunctionMatchNode::Leaf(FunctionMatch::ReturnsType(ReturnTypePattern::Regex(s))) && s@
                == pattern@,
    {
        FunctionMatchNode::Leaf(FunctionMatch::ReturnsType(ReturnTypePattern::Regex(String::from_str(pattern))))
    }

    /// Functions returning `Self` by value.
    pub fn returns_self(&self) -> (r: FunctionMatchNode)
        ensures
            leaf_with(r, FunctionMatch::ReturnsType(ReturnTypePattern::SelfValue)),
    {
        FunctionMatchNode::Leaf(FunctionMatch::ReturnsType(ReturnTypePattern::SelfValue))
    }

    /// Functions returning `&Self`.
    pub fn returns_self_ref(&self) -> (r: FunctionMatchNode)
        ensures
            leaf_with(r, FunctionMatch::ReturnsType(ReturnTypePattern::SelfRef)),
    {
        FunctionMatchNode::Leaf(FunctionMatch::ReturnsType(ReturnTypePattern::SelfRef))
    }

    /// Functions returning `&mut Self`.
    pub fn returns_self_mut_ref(&self) -> (r: FunctionMatchNode)
        ensures
            leaf_with(r, FunctionMatch::ReturnsType(ReturnTypePattern::SelfMutRef)),
    {
        FunctionMatchNode::Leaf(FunctionMatch::ReturnsType(ReturnTypePattern::SelfMutRef))
    }

    /// Async functions.
    pub fn is_async(&self) -> (r: FunctionMatchNode)
        ensures
            leaf_with(r, FunctionMatch::IsAsync),
    {
        FunctionMatchNode::Leaf(FunctionMatch::IsAsync)
    }
}

impl FunctionMatchNode {
    /// The matcher this expression denotes.
    pub open spec fn built(self) -> FunctionMatch
        decreases self,
    {
        match self {
            FunctionMatchNode::Leaf(m) => m,
            FunctionMatchNode::And(a, b) => FunctionMatch::AndMatches(Box::new(a.built()), Box::new(b.built())),
            FunctionMatchNode::Or(a, b) => FunctionMatch::OrMatches(Box::new(a.built()), Box::new(b.built())),
            FunctionMatchNode::Not(m) => FunctionMatch::NotMatch(Box::new(m.built())),
        }
    }

    /// Both matchers must match.
    pub fn and(self, other: FunctionMatchNode) -> (r: Self)
        ensures
            r == FunctionMatchNode::And(Box::new(self), Box::new(other)),
    {
        FunctionMatchNode::And(Box::new(self), Box::new(other))
    }

    /// Either matcher must match.
    pub fn or(self, other: FunctionMatchNode) -> (r: Self)
        ensures
            r == FunctionMatchNode::Or(Box::new(self), Box::new(other)),
    {
        FunctionMatchNode::Or(Box::new(self), Box::new(other))
    }

    /// Inverts the matcher.
    #[allow(clippy::should_implement_trait)]
    pub fn not(self) -> (r: Self)
        ensures
            r == FunctionMatchNode::Not(Box::new(self)),
    {
        FunctionMatchNode::Not(Box::new(self))
    }

    /// Converts the expression into the matcher it denotes.
    pub fn build(self) -> (r: FunctionMatch)
        ensures
            r == self.built(),
        decreases self,
    {
        match self {
            FunctionMatchNode::Leaf(m) => m,
            FunctionMatchNode::And(a, b) => {
                let x = a.build();
                let y = b.build();
                FunctionMatch::AndMatches(Box::new(x), Box::new(y))
            },
            FunctionMatchNode::Or(a, b) => {
                let x = a.build();
                let y = b.build();
                FunctionMatch::OrMatches(Box::new(x), Box::new(y))
            },
            FunctionMatchNode::Not(m) => {
                let x = m.build();
                FunctionMatch::NotMatch(Box::new(x))
            },
        }
    }
}

/// Runs a matcher DSL expression and converts its result into a matcher.
pub fn matcher<F>(f: F) -> (r: FunctionMatch) where F: FnOnce(&FunctionMatcher) -> FunctionMatchNode
    requires
        f.requires((&FunctionMatcher,)),
    ensures
        exists|n: FunctionMatchNode| f.ensures((&FunctionMatcher,), n) && r == n.built(),
{
    let m = FunctionMatcher;
    let node = f(&m);
    node.build()
}

/// Adds function linting to a lint builder.
pub trait FunctionLintExt {
    /// Starts a function lint.
    fn function_lint(&mut self) -> FunctionLintBuilder<'_>;
}

impl FunctionLintExt for LintBuilder {
    fn function_lint(&mut self) -> (r: FunctionLintBuilder<'_>)
        ensures
            *r.parent == *old(self),
            *final(self) == *final(r.parent),
    {
        FunctionLintBuilder { parent: self }
    }
}

/// First step of a function lint: it must be named.
pub struct FunctionLintBuilder<'a> {
    pub parent: &'a mut LintBuilder,
}

impl<'a> FunctionLintBuilder<'a> {
    /// Names the lint.
    pub fn lint_named(self, name: &str) -> (r: FunctionNamedBuilder<'a>)
        ensures
            r.name@ == name@,
            *r.parent == *old(self.parent),
            *final(self.parent) == *final(r.parent),
    {
        FunctionNamedBuilder { parent: self.parent, name: String::from_str(name) }
    }
}

/// Second step of a function lint: what it matches.
pub struct FunctionNamedBuilder<'a> {
    pub parent: &'a mut LintBuilder,
    pub name: String,
}

impl<'a> FunctionNamedBuilder<'a> {
    /// Uses `m` as the matcher; no rules yet, severity `Warn`.
    pub fn matches(self, m: FunctionMatch) -> (r: FunctionConstraintBuilder<'a>)
        ensures
            r.match_ == m,
            r.rules@.len() == 0,
            r.current_severity == Severity::Warn,
            r.name == self.name,
            *r.parent == *old(self.parent),
            *final(self.parent) == *final(r.parent),
    {
        FunctionConstraintBuilder {
            parent: self.parent,
            match_: m,
            rules: Vec::new(),
            current_severity: Severity::default(),
            name: self.name,
        }
    }

    /// Uses the matcher built by the DSL expression `f`.
    pub fn matching<F>(self, f: F) -> (r: FunctionConstraintBuilder<'a>) where
        F: FnOnce(&FunctionMatcher) -> FunctionMatchNode,

        requires
            f.requires((&FunctionMatcher,)),
        ensures
            exists|n: FunctionMatchNode| f.ensures((&FunctionMatcher,), n) && r.match_ == n.built(),
            r.rules@.len() == 0,
            r.current_severity == Severity::Warn,
            r.name == self.name,
            *r.parent == *old(self.parent),
            *final(self.parent) == *final(r.parent),
    {
        let m = matcher(f);
        self.matches(m)
    }
}

/// Third step of a function lint: its rules.
pub struct FunctionConstraintBuilder<'a> {
    pub parent: &'a mut LintBuilder,
    pub match_: FunctionMatch,
    pub rules: Vec<FunctionRule>,
    pub current_severity: Severity,
    pub name: String,
}

impl<'a> FunctionConstraintBuilder<'a> {
    fn add_rule_internal(&mut self, rule: FunctionRule)
        ensures
            final(self).rules@ == old(self).rules@.push(rule),
            final(self).match_ == old(self).match_,
            final(self).current_severity == old(self).current_severity,
            final(self).name == old(self).name,
            *final(self).parent == *old(self).parent,
            *final(final(self).parent) == *final(old(self).parent),
    {
        self.rules.push(rule);
    }

    /// Adds `rule`.
    pub fn add_rule(self, rule: FunctionRule) -> (r: Self)
        ensures
            r.rules@ == self.rules@.push(rule),
            r.match_ == self.match_,
            r.current_severity == self.current_severity,
            r.name == self.name,
            *r.parent == *old(self.parent),
            *final(self.parent) == *final(r.parent),
    {
        let mut this = self;
        this.add_rule_internal(rule);
        this
    }

    /// Finishes the lint, adding it to the parent builder.
    pub fn build(self) -> (r: &'a mut LintBuilder)
        ensures
            r.lints@ == old(self.parent).lints@.push(
                ConfiguredLint::Function(FunctionLint { name: self.name, matches: self.match_, rules: self.rules }),
            ),
            *final(self.parent) == *final(r),
    {
        let lint = ConfiguredLint::Function(FunctionLint { name: self.name, matches: self.match_, rules: self.rules });
        self.parent.push(lint);
        self.parent
    }

    /// Uses `severity` for the rules added after this.
    pub fn with_severity(self, severity: Severity) -> (r: Self)
        ensures
            r.current_severity == severity,
            r.rules == self.rules,
            r.match_ == self.match_,
            r.name == self.name,
            *r.parent == *old(self.parent),
            *final(self.parent) == *final(r.parent),
    {
        let mut this = self;
        this.current_severity = severity;
        this
    }

    /// Limits function length to `length` lines.
    pub fn max_length(self, length: usize) -> (r: Self)
        ensures
            r.rules@ == self.rules@.push(FunctionRule::MaxLength(length, self.current_severity)),
            r.match_ == self.match_,
            r.current_severity == self.current_severity,
            r.name == self.name,
            *r.parent == *old(self.parent),
            *final(self.parent) == *final(r.parent),
    {
        let mut this = self;
        let sev = this.current_severity;
        this.add_rule_internal(FunctionRule::MaxLength(length, sev));
        this
    }

    /// Requires the error type of a returned `Result` to implement `Error`.
    pub fn enforce_error_trait_implementation(self) -> (r: Self)
        ensures
            r.rules@ == self.rules@.push(FunctionRule::ResultErrorMustImplementError(self.current_severity)),
            r.match_ == self.match_,
            r.current_severity == self.current_severity,
            r.name == self.name,
            *r.parent == *old(self.parent),
            *final(self.parent) == *final(r.parent),
    {
        let mut this = self;
        let sev = this.current_severity;
        this.add_rule_internal(FunctionRule::ResultErrorMustImplementError(sev));
        this
    }

    /// A length rule at the current severity.
    pub fn create_max_length_rule(&self, length: usize) -> (r: FunctionRule)
        ensures
            r == FunctionRule::MaxLength(length, self.current_severity),
    {
        FunctionRule::MaxLength(length, self.current_severity)
    }
}

/// The function lint generated for a project with crate name `root`.
pub open spec fn generated_function_lint(root: Seq<char>, lint: FunctionLint) -> bool {
    &&& lint.name@ == "func_rules_for_"@ + root
    &&& lint.matches matches FunctionMatch::InModule(p) && p@ == root + "::*"@
    &&& lint.rules@ == seq![
        FunctionRule::MaxLength(50, Severity::Warn),
        FunctionRule::ResultErrorMustImplementError(Severity::Warn),
    ]
}

/// A configured lint that is the function lint generated for crate name `root`.
pub open spec fn is_generated_function_lint(lint: ConfiguredLint, root: Seq<char>) -> bool {
    lint matches ConfiguredLint::Function(f) && generated_function_lint(root, f)
}

/// The generated lint that every function be at most 50 lines, as a warning.
pub open spec fn length_limit_lint(lint: FunctionLint) -> bool {
    &&& lint.name@ == "function_length_limit"@
    &&& lint.matches matches FunctionMatch::NameRegex(p) && p@ == ".*"@
    &&& lint.rules@ == seq![FunctionRule::MaxLength(50, Severity::Warn)]
}

/// The generated lint that functions returning a `Result` have an error type
/// that implements `Error`, as a warning.
pub open spec fn result_error_function_lint(lint: FunctionLint) -> bool {
    &&& lint.name@ == "result_error_must_implement_error"@
    &&& lint.matches == FunctionMatch::ReturnsType(ReturnTypePattern::Result)
    &&& lint.rules@ == seq![FunctionRule::ResultErrorMustImplementError(Severity::Warn)]
}

/// A configured lint that is a function lint satisfying `pred`.
pub open spec fn is_function_lint_with(lint: ConfiguredLint, pred: spec_fn(FunctionLint) -> bool) -> bool {
    lint matches ConfiguredLint::Function(f) && pred(f)
}

impl GenerateFromContext for FunctionLint {
    /// Adds the lint that limits every function to 50 lines and the lint that
    /// requires returned `Result` errors to implement `Error`, then, for each
    /// project context in turn, a lint with both rules for the functions of
    /// that project; all rules are warnings.
    fn generate_from_contexts(contexts: &[ProjectContext], builder: &mut LintBuilder)
        ensures
            final(builder).lints@.len() == old(builder).lints@.len() + 2 + contexts@.len(),
            forall|i: int| 0 <= i < old(builder).lints@.len() ==> final(builder).lints@[i] == old(builder).lints@[i],
            is_function_lint_with(final(builder).lints@[old(builder).lints@.len() as int], |f| length_limit_lint(f)),
            is_function_lint_with(
                final(builder).lints@[old(builder).lints@.len() + 1int],
                |f| result_error_function_lint(f),
            ),
            forall|i: int|
                0 <= i < contexts@.len() ==> is_generated_function_lint(
                    #[trigger] final(builder).lints@[old(builder).lints@.len() + 2 + i],
                    contexts@[i].module_root@,
                ),
    {
        let mut length_rules: Vec<FunctionRule> = Vec::new();
        length_rules.push(FunctionRule::MaxLength(50, Severity::Warn));
        assert(length_rules@ =~= seq![FunctionRule::MaxLength(50, Severity::Warn)]);
        builder.push(
            ConfiguredLint::Function(
                FunctionLint {
                    name: String::from_str("function_length_limit"),
                    matches: FunctionMatch::NameRegex(String::from_str(".*")),
                    rules: length_rules,
                },
            ),
        );
        let mut error_rules: Vec<FunctionRule> = Vec::new();
        error_rules.push(FunctionRule::ResultErrorMustImplementError(Severity::Warn));
        assert(error_rules@ =~= seq![FunctionRule::ResultErrorMustImplementError(Severity::Warn)]);
        builder.push(
            ConfiguredLint::Function(
                FunctionLint {
                    name: String::from_str("result_error_must_implement_error"),
                    matches: FunctionMatch::ReturnsType(ReturnTypePattern::Result),
                    rules: error_rules,
                },
            ),
        );
        let ghost n0 = builder.lints@.len();
        let ghost start = builder.lints@;
        assert(n0 == old(builder).lints@.len() + 2);
        assert(forall|k: int| 0 <= k < old(builder).lints@.len() ==> start[k] == old(builder).lints@[k]);
        let mut i: usize = 0;
        while i < contexts.len()
            invariant
                i <= contexts@.len(),
                start.len() == n0,
                n0 == old(builder).lints@.len() + 2,
                forall|k: int| 0 <= k < old(builder).lints@.len() ==> start[k] == old(builder).lints@[k],
                is_function_lint_with(start[old(builder).lints@.len() as int], |f| length_limit_lint(f)),
                is_function_lint_with(start[old(builder).lints@.len() + 1int], |f| result_error_function_lint(f)),
                builder.lints@.len() == n0 + i,
                forall|k: int| 0 <= k < n0 ==> builder.lints@[k] == start[k],
                forall|k: int|
                    0 <= k < i ==> is_generated_function_lint(
                        #[trigger] builder.lints@[n0 + k],
                        contexts@[k].module_root@,
                    ),
            decreases contexts.len() - i,
        {
            let root = contexts[i].module_root.as_str();
            let name = concat2("func_rules_for_", root);
            let module = concat2(root, "::*");
            let mut rules: Vec<FunctionRule> = Vec::new();
            rules.push(FunctionRule::MaxLength(50, Severity::Warn));
            rules.push(FunctionRule::ResultErrorMustImplementError(Severity::Warn));
            assert(rules@ =~= seq![
                FunctionRule::MaxLength(50, Severity::Warn),
                FunctionRule::ResultErrorMustImplementError(Severity::Warn),
            ]);
            let lint = FunctionLint { name, matches: FunctionMatch::InModule(module), rules };
            builder.push(ConfiguredLint::Function(lint));
            i = i + 1;
        }
        assert forall|k: int| 0 <= k < old(builder).lints@.len() implies builder.lints@[k] == old(builder).lints@[k] by {
            assert(builder.lints@[k] == start[k]);
        }
    }
}

} // verus!
