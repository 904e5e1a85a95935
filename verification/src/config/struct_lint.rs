//! Struct lints: which structs to match, and the rules they must follow.
use vstd::prelude::*;
use vstd::string::*;
use crate::config::lint_builder::{ConfiguredLint, GenerateFromContext, LintBuilder};
use crate::config::severity::Severity;
use crate::project_context::ProjectContext;

verus! {

/// How to match structs for linting.
#[derive(Debug)]
pub enum StructMatch {
    /// Structs whose name matches this regex.
    Name(String),
    /// Structs carrying an attribute whose complete name matches this regex.
    HasAttribute(String),
    /// Structs implementing a trait whose full name matches this regex.
    ImplementsTrait(String),
    /// Both patterns must match.
    AndMatches(Box<StructMatch>, Box<StructMatch>),
    /// Either pattern must match.
    OrMatches(Box<StructMatch>, Box<StructMatch>),
    /// Inverts the match.
    NotMatch(Box<StructMatch>),
}

/// A complete struct lint: a name, what it matches and its rules.
#[derive(Debug)]
pub struct StructLint {
    pub name: String,
    pub matches: StructMatch,
    pub rules: Vec<StructRule>,
}

/// Rules that apply to matched structs.
#[derive(Debug)]
pub enum StructRule {
    /// The struct name must match this regex.
    MustBeNamed(String, Severity),
    /// The struct name must not match this regex.
    MustNotBeNamed(String, Severity),
    /// No visibility keyword at all.
    MustBePrivate(Severity),
    /// `pub` visibility.
    MustBePublic(Severity),
    /// `pub(crate)` visibility.
    MustBePubCrate(Severity),
    /// Implements a trait whose full name matches this regex.
    ImplementsTrait(String, Severity),
    /// Both rules must pass.
    And(Box<StructRule>, Box<StructRule>),
    /// Either rule must pass.
    Or(Box<StructRule>, Box<StructRule>),
    /// Inverts the rule.
    Not(Box<StructRule>),
}

/// Entry point of the fluent struct matcher DSL.
pub struct StructMatcher;

/// A node of a struct matcher expression.

pub enum StructMatchNode {
    Leaf(StructMatch),
    And(Box<StructMatchNode>, Box<StructMatchNode>),
    Or(Box<StructMatchNode>, Box<StructMatchNode>),
    Not(Box<StructMatchNode>),
}

impl StructMatcher {
    /// Structs whose name matches this regex.
    pub fn name(&self, name: &str) -> (r: StructMatchNode)
        ensures
            r matches StructMatchNode::Leaf(StructMatch::Name(s)) && s@ == name@,
    {
        StructMatchNode::Leaf(StructMatch::Name(String::from_str(name)))
    }

    /// Structs carrying an attribute whose complete name matches this regex.
    pub fn has_attribute(&self, attr: &str) -> (r: StructMatchNode)
        ensures
            r matches StructMatchNode::Leaf(StructMatch::HasAttribute(s)) && s@ == attr@,
    {
        StructMatchNode::Leaf(StructMatch::HasAttribute(String::from_str(attr)))
    }

    /// Structs implementing a trait whose full name matches this regex.
    pub fn implements_trait(&self, trait_name: &str) -> (r: StructMatchNode)
        ensures
            r matches StructMatchNode::Leaf(StructMatch::ImplementsTrait(s)) && s@ == trait_name@,
    {
        StructMatchNode::Leaf(StructMatch::ImplementsTrait(String::from_str(trait_name)))
    }
}

impl StructMatchNode {
    /// The matcher this expression denotes.
    pub open spec fn built(self) -> StructMatch
        decreases self,
    {
        match self {
            StructMatchNode::Leaf(m) => m,
            StructMatchNode::And(a, b) => StructMatch::AndMatches(Box::new(a.built()), Box::new(b.built())),
            StructMatchNode::Or(a, b) => StructMatch::OrMatches(Box::new(a.built()), Box::new(b.built())),
            StructMatchNode::Not(m) => StructMatch::NotMatch(Box::new(m.built())),
        }
    }

    /// Both matchers must match.
    pub fn and(self, other: StructMatchNode) -> (r: Self)
        ensures
            r == StructMatchNode::And(Box::new(self), Box::new(other)),
    {
        StructMatchNode::And(Box::new(self), Box::new(other))
    }

    /// Either matcher must match.
    pub fn or(self, other: StructMatchNode) -> (r: Self)
        ensures
            r == StructMatchNode::Or(Box::new(self), Box::new(other)),
    {
        StructMatchNode::Or(Box::new(self), Box::new(other))
    }

    /// Inverts the matcher.
    #[allow(clippy::should_implement_trait)]
    pub fn not(self) -> (r: Self)
        ensures
            r == StructMatchNode::Not(Box::new(self)),
    {
        StructMatchNode::Not(Box::new(self))
    }

    /// Converts the expression into the matcher it denotes.
    pub fn build(self) -> (r: StructMatch)
        ensures
            r == self.built(),
        decreases self,
    {
        match self {
            StructMatchNode::Leaf(m) => m,
            StructMatchNode::And(a, b) => {
                let x = a.build();
                let y = b.build();
                StructMatch::AndMatches(Box::new(x), Box::new(y))
            },
            StructMatchNode::Or(a, b) => {
                let x = a.build();
                let y = b.build();
                StructMatch::OrMatches(Box::new(x), Box::new(y))
            },
            StructMatchNode::Not(m) => {
                let x = m.build();
                StructMatch::NotMatch(Box::new(x))
            },
        }
    }
}

/// Runs a matcher DSL expression and converts its result into a matcher.
pub fn matcher<F>(f: F) -> (r: StructMatch) where F: FnOnce(&StructMatcher) -> StructMatchNode
    requires
        f.requires((&StructMatcher,)),
    ensures
        exists|n: StructMatchNode| f.ensures((&StructMatcher,), n) && r == n.built(),
{
    let m = StructMatcher;
    let node = f(&m);
    node.build()
}

/// Adds struct linting to a lint builder.
pub trait StructLintExt {
    /// Starts a struct lint.
    fn struct_lint(&mut self) -> StructLintBuilder<'_>;
}

impl StructLintExt for LintBuilder {
    fn struct_lint(&mut self) -> (r: StructLintBuilder<'_>)
        ensures
            *r.parent == *old(self),
            *final(self) == *final(r.parent),
    {
        StructLintBuilder { parent: self }
    }
}

/// First step of a struct lint: it must be named.
pub struct StructLintBuilder<'a> {
    pub parent: &'a mut LintBuilder,
}

impl<'a> StructLintBuilder<'a> {
    /// Names the lint.
    pub fn lint_named(self, name: &str) -> (r: StructNamedBuilder<'a>)
        ensures
            r.name@ == name@,
            *r.parent == *old(self.parent),
            *final(self.parent) == *final(r.parent),
    {
        StructNamedBuilder { parent: self.parent, name: String::from_str(name) }
    }
}

/// Second step of a struct lint: what it matches.
pub struct StructNamedBuilder<'a> {
    pub parent: &'a mut LintBuilder,
    pub name: String,
}

impl<'a> StructNamedBuilder<'a> {
    /// Uses `m` as the matcher; no rules yet, severity `Warn`.
    pub fn matches(self, m: StructMatch) -> (r: StructConstraintBuilder<'a>)
        ensures
            r.match_ == m,
            r.rules@.len() == 0,
            r.current_severity == Severity::Warn,
            r.name == self.name,
            *r.parent == *old(self.parent),
            *final(self.parent) == *final(r.parent),
    {
        StructConstraintBuilder {
            parent: self.parent,
            match_: m,
            rules: Vec::new(),
            current_severity: Severity::default(),
            name: self.name,
        }
    }

    /// Uses the matcher built by the DSL expression `f`.
    pub fn matching<F>(self, f: F) -> (r: StructConstraintBuilder<'a>) where
        F: FnOnce(&StructMatcher) -> StructMatchNode,

        requires
            f.requires((&StructMatcher,)),
        ensures
            exists|n: StructMatchNode| f.ensures((&StructMatcher,), n) && r.match_ == n.built(),
            r.rules@.len() == 0,
            r.current_severity == Severity::Warn,
            r.name == self.name,
            *r.parent == *old(self.parent),
            *final(self.parent) == *final(r.parent),
    {
        let m = matcher(f);
        self.matches(m)
    }
}

/// Third step of a struct lint: its rules.
pub struct StructConstraintBuilder<'a> {
    pub parent: &'a mut LintBuilder,
    pub match_: StructMatch,
    pub rules: Vec<StructRule>,
    pub current_severity: Severity,
    pub name: String,
}

/// `after` is `before` with `rule` added and everything else unchanged.
pub open spec fn struct_rule_added(before: StructConstraintBuilder, after: StructConstraintBuilder, rule: StructRule) -> bool {
    &&& after.rules@ == before.rules@.push(rule)
    &&& after.match_ == before.match_
    &&& after.current_severity == before.current_severity
    &&& after.name == before.name
}

impl<'a> StructConstraintBuilder<'a> {
    fn add_rule_internal(&mut self, rule: StructRule)
        ensures
            final(self).rules@ == old(self).rules@.push(rule),
            final(self).match_ == old(self).match_,
            final(self).current_severity == old(self).current_severity,
            final(self).name == old(self).name,
            *final(self).parent == *old(self).parent,
            *final(final(self).parent) == *final(old(self).parent),
    {
        self.rules.push(rule);
    }

    /// Adds `rule`.
    pub fn add_rule(self, rule: StructRule) -> (r: Self)
        ensures
            struct_rule_added(self, r, rule),
            *r.parent == *old(self.parent),
            *final(self.parent) == *final(r.parent),
    {
        let mut this = self;
        this.add_rule_internal(rule);
        this
    }

    /// Finishes the lint, adding it to the parent builder.
    pub fn build(self) -> (r: &'a mut LintBuilder)
        ensures
            r.lints@ == old(self.parent).lints@.push(
                ConfiguredLint::Struct(StructLint { name: self.name, matches: self.match_, rules: self.rules }),
            ),
            *final(self.parent) == *final(r),
    {
        let lint = ConfiguredLint::Struct(StructLint { name: self.name, matches: self.match_, rules: self.rules });
        self.parent.push(lint);
        self.parent
    }

    /// Uses `severity` for the rules added after this.
    pub fn with_severity(self, severity: Severity) -> (r: Self)
        ensures
            r.current_severity == severity,
            r.rules == self.rules,
            r.match_ == self.match_,
            r.name == self.name,
            *r.parent == *old(self.parent),
            *final(self.parent) == *final(r.parent),
    {
        let mut this = self;
        this.current_severity = severity;
        this
    }

    /// The struct name must match `name`.
    pub fn must_be_named(self, name: String) -> (r: Self)
        ensures
            struct_rule_added(self, r, StructRule::MustBeNamed(name, self.current_severity)),
            *r.parent == *old(self.parent),
            *final(self.parent) == *final(r.parent),
    {
        let mut this = self;
        let sev = this.current_severity;
        this.add_rule_internal(StructRule::MustBeNamed(name, sev));
        this
    }

    /// The struct name must not match `name`.
    pub fn must_not_be_named(self, name: String) -> (r: Self)
        ensures
            struct_rule_added(self, r, StructRule::MustNotBeNamed(name, self.current_severity)),
            *r.parent == *old(self.parent),
            *final(self.parent) == *final(r.parent),
    {
        let mut this = self;
        let sev = this.current_severity;
        this.add_rule_internal(StructRule::MustNotBeNamed(name, sev));
        this
    }

    /// The struct must be private.
    pub fn must_be_private(self) -> (r: Self)
        ensures
            struct_rule_added(self, r, StructRule::MustBePrivate(self.current_severity)),
            *r.parent == *old(self.parent),
            *final(self.parent) == *final(r.parent),
    {
        let mut this = self;
        let sev = this.current_severity;
        this.add_rule_internal(StructRule::MustBePrivate(sev));
        this
    }

    /// The struct must implement a trait whose full name matches `trait_path`.
    pub fn must_implement_trait(self, trait_path: &str) -> (r: Self)
        ensures
            r.rules@.len() == self.rules@.len() + 1,
            r.rules@.drop_last() == self.rules@,
            r.rules@.last() matches StructRule::ImplementsTrait(p, sev) && p@ == trait_path@ && sev
                == self.current_severity,
            r.match_ == self.match_,
            r.current_severity == self.current_severity,
            r.name == self.name,
            *r.parent == *old(self.parent),
            *final(self.parent) == *final(r.parent),
    {
        let mut this = self;
        let sev = this.current_severity;
        this.add_rule_internal(StructRule::ImplementsTrait(String::from_str(trait_path), sev));
        this
    }

    /// The struct must not implement a trait whose full name matches `trait_path`.
    pub fn must_not_implement_trait(self, trait_path: &str) -> (r: Self)
        ensures
            r.rules@.len() == self.rules@.len() + 1,
            r.rules@.drop_last() == self.rules@,
            r.rules@.last() matches StructRule::Not(inner) && (*inner matches StructRule::ImplementsTrait(p, sev) && p@
                == trait_path@ && sev == self.current_severity),
            r.match_ == self.match_,
            r.current_severity == self.current_severity,
            r.name == self.name,
            *r.parent == *old(self.parent),
            *final(self.parent) == *final(r.parent),
    {
        let mut this = self;
        let sev = this.current_severity;
        let inner = StructRule::ImplementsTrait(String::from_str(trait_path), sev);
        this.add_rule_internal(StructRule::Not(Box::new(inner)));
        this
    }

    /// The struct must be public.
    pub fn must_be_public(self) -> (r: Self)
        ensures
            struct_rule_added(self, r, StructRule::MustBePublic(self.current_severity)),
            *r.parent == *old(self.parent),
            *final(self.parent) == *final(r.parent),
    {
        let mut this = self;
        let sev = this.current_severity;
        this.add_rule_internal(StructRule::MustBePublic(sev));
        this
    }
}

impl GenerateFromContext for StructLint {
    /// Struct lints are not generated from project contexts: the builder is left
    /// unchanged.
    fn generate_from_contexts(contexts: &[ProjectContext], builder: &mut LintBuilder)
        ensures
            *final(builder) == *old(builder),
    {
    }
}

} // verus!
