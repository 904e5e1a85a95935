//! The struct lint: which structs a configured struct lint selects, and what it
//! reports for each rule they violate.
use vstd::prelude::*;
use vstd::string::*;
use crate::config::lint_builder::{ConfiguredLint, copy_struct_match, copy_struct_rules};
use crate::config::severity::Severity;
use crate::config::struct_lint::{StructMatch, StructRule};
use crate::lints::finding::{Finding, FindingView, LintId, Site, finding_views};
use crate::lints::rule::ArchitectureLintRule;
use crate::lints::struct_rules::{
    decides,
    collect_rule_violations,
    is_leaf_rule,
    lemma_violations_are_failing_leaves,
    rule_holds,
    violation_values,
    violations_of,
};
use crate::pattern::{
    matches_or_equal,
    matches_or_false,
    pattern_matches,
    pattern_matches_or_equal,
    regex_compiles,
    regex_find,
    regex_first_match,
};
use crate::text::chars_of;

verus! {

/// What the struct lint needs to know of a struct.
#[derive(Debug)]
pub struct StructFacts {
    /// The struct's name.
    pub name: String,
    /// The name of the crate being checked.
    pub crate_name: String,
    /// The names of the struct's attributes (those that have one).
    pub attributes: Vec<String>,
    /// The full canonical names of the traits the struct implements.
    pub implemented_traits: Vec<String>,
    /// Visible everywhere.
    pub is_public: bool,
    /// Written `pub(crate)`.
    pub is_pub_crate: bool,
    /// Written with some visibility keyword.
    pub has_visibility_keyword: bool,
}

/// A character that marks a name pattern as a regular expression.
pub open spec fn is_pattern_char(c: char) -> bool {
    c == '*' || c == '.' || c == '+' || c == '[' || c == '(' || c == '|' || c == '^' || c == '$' || c == '\\'
}

/// Whether `p` holds a character that marks it as a regular expression.
pub open spec fn looks_like_pattern(p: Seq<char>) -> bool {
    exists|i: int| 0 <= i < p.len() && is_pattern_char(p[i])
}

/// How a name rule's pattern is described in messages.
pub open spec fn pattern_kind(p: Seq<char>) -> Seq<char> {
    if looks_like_pattern(p) {
        "pattern"@
    } else {
        "name"@
    }
}

pub(crate) fn has_pattern_chars(p: &str) -> (r: bool)
    ensures
        r == looks_like_pattern(p@),
{
    let cs = chars_of(p);
    let mut i: usize = 0;
    while i < cs.len()
        invariant
            cs@ == p@,
            i <= cs@.len(),
            forall|k: int| 0 <= k < i ==> !is_pattern_char(cs@[k]),
        decreases cs.len() - i,
    {
        let c = cs[i];
        if c == '*' || c == '.' || c == '+' || c == '[' || c == '(' || c == '|' || c == '^' || c == '$' || c
            == '\\' {
            return true;
        }
        i = i + 1;
    }
    false
}

/// "pattern" when `pattern` holds a regular-expression character, else "name".
pub fn describe_pattern(pattern: &str) -> (r: &'static str)
    ensures
        r@ == pattern_kind(pattern@),
{
    if has_pattern_chars(pattern) {
        "pattern"
    } else {
        "name"
    }
}

/// Whether the leftmost match of `pattern` in `attribute` covers all of it.
pub open spec fn attribute_full_match(pattern: Seq<char>, attribute: Seq<char>) -> bool {
    regex_compiles(pattern) && regex_first_match(pattern, attribute) == Some(
        (0int, (vstd::utf8::encode_utf8(attribute).len() as usize) as int),
    )
}

/// Whether the first match of `pattern` in `attribute` is the whole attribute
/// name; an invalid pattern matches nothing.
pub fn attribute_matches(pattern: &str, attribute: &str) -> (r: bool)
    ensures
        r == attribute_full_match(pattern@, attribute@),
{
    match regex_find(pattern, attribute) {
        Some(Some((start, end))) => start == 0 && end == attribute.len(),
        _ => false,
    }
}

/// Whether a struct matcher mentions a trait pattern that `trait_path` matches.
pub open spec fn references_trait(m: StructMatch, trait_path: Seq<char>) -> bool
    decreases m,
{
    match m {
        StructMatch::ImplementsTrait(p) => matches_or_false(p@, trait_path),
        StructMatch::AndMatches(l, r) => references_trait(*l, trait_path) || references_trait(*r, trait_path),
        StructMatch::OrMatches(l, r) => references_trait(*l, trait_path) || references_trait(*r, trait_path),
        StructMatch::NotMatch(i) => references_trait(*i, trait_path),
        _ => false,
    }
}

/// Whether `matcher` holds a trait pattern that `trait_path` matches.
pub fn matcher_references_trait(matcher: &StructMatch, trait_path: &str) -> (r: bool)
    ensures
        r == references_trait(*matcher, trait_path@),
    decreases matcher,
{
    match matcher {
        StructMatch::ImplementsTrait(pattern) => pattern_matches(pattern.as_str(), trait_path),
        StructMatch::AndMatches(left, right) => matcher_references_trait(left, trait_path)
            || matcher_references_trait(right, trait_path),
        StructMatch::OrMatches(left, right) => matcher_references_trait(left, trait_path)
            || matcher_references_trait(right, trait_path),
        StructMatch::NotMatch(inner) => matcher_references_trait(inner, trait_path),
        StructMatch::Name(_) => false,
        StructMatch::HasAttribute(_) => false,
    }
}

/// Whether one of the struct's attributes is fully matched by `pattern`.
pub open spec fn has_attribute_matching(pattern: Seq<char>, f: StructFacts) -> bool {
    exists|i: int| 0 <= i < f.attributes@.len() && attribute_full_match(pattern, #[trigger] f.attributes@[i]@)
}

/// Whether the struct implements a trait whose full name matches `pattern`.
pub open spec fn implements_trait_matching(pattern: Seq<char>, f: StructFacts) -> bool {
    exists|i: int|
        0 <= i < f.implemented_traits@.len() && matches_or_false(pattern, #[trigger] f.implemented_traits@[i]@)
}

/// Whether the struct satisfies matcher `m`; a name pattern is matched against
/// the struct's name.
pub open spec fn struct_match_holds(m: StructMatch, f: StructFacts) -> bool
    decreases m,
{
    match m {
        StructMatch::Name(p) => matches_or_equal(p@, f.name@),
        StructMatch::HasAttribute(p) => has_attribute_matching(p@, f),
        StructMatch::ImplementsTrait(p) => implements_trait_matching(p@, f),
        StructMatch::AndMatches(l, r) => struct_match_holds(*l, f) && struct_match_holds(*r, f),
        StructMatch::OrMatches(l, r) => struct_match_holds(*l, f) || struct_match_holds(*r, f),
        StructMatch::NotMatch(i) => !struct_match_holds(*i, f),
    }
}

/// Whether the struct satisfies leaf rule `r`.
pub open spec fn struct_leaf_holds(r: StructRule, f: StructFacts) -> bool {
    match r {
        StructRule::MustBeNamed(p, _) => matches_or_equal(p@, f.name@),
        StructRule::MustNotBeNamed(p, _) => !matches_or_equal(p@, f.name@),
        StructRule::MustBePrivate(_) => !f.has_visibility_keyword,
        StructRule::MustBePublic(_) => f.is_public,
        StructRule::MustBePubCrate(_) => f.is_pub_crate,
        StructRule::ImplementsTrait(p, _) => implements_trait_matching(p@, f),
        _ => false,
    }
}

impl StructFacts {
    fn has_matching_attribute(&self, pattern: &str) -> (r: bool)
        ensures
            r == has_attribute_matching(pattern@, *self),
    {
        let mut i: usize = 0;
        while i < self.attributes.len()
            invariant
                i <= self.attributes@.len(),
                forall|k: int| 0 <= k < i ==> !attribute_full_match(pattern@, #[trigger] self.attributes@[k]@),
            decreases self.attributes.len() - i,
        {
            if attribute_matches(pattern, self.attributes[i].as_str()) {
                return true;
            }
            i = i + 1;
        }
        false
    }

    fn implements_matching_trait(&self, pattern: &str) -> (r: bool)
        ensures
            r == implements_trait_matching(pattern@, *self),
    {
        let mut i: usize = 0;
        while i < self.implemented_traits.len()
            invariant
                i <= self.implemented_traits@.len(),
                forall|k: int|
                    0 <= k < i ==> !matches_or_false(pattern@, #[trigger] self.implemented_traits@[k]@),
            decreases self.implemented_traits.len() - i,
        {
            if pattern_matches(pattern, self.implemented_traits[i].as_str()) {
                return true;
            }
            i = i + 1;
        }
        false
    }
}

/// The valuation of leaf rules that a struct's facts give.
pub open spec fn leaf_valuation(f: StructFacts) -> spec_fn(StructRule) -> bool {
    |r: StructRule| struct_leaf_holds(r, f)
}

impl StructFacts {
    /// Whether the struct satisfies leaf rule `r`.
    pub fn evaluate_leaf(&self, r: &StructRule) -> (b: bool)
        ensures
            b == struct_leaf_holds(*r, *self),
    {
        match r {
            StructRule::MustBeNamed(pattern, _) => pattern_matches_or_equal(pattern.as_str(), self.name.as_str()),
            StructRule::MustNotBeNamed(pattern, _) => !pattern_matches_or_equal(
                pattern.as_str(),
                self.name.as_str(),
            ),
            StructRule::MustBePrivate(_) => !self.has_visibility_keyword,
            StructRule::MustBePublic(_) => self.is_public,
            StructRule::MustBePubCrate(_) => self.is_pub_crate,
            StructRule::ImplementsTrait(pattern, _) => self.implements_matching_trait(pattern.as_str()),
            _ => false,
        }
    }
}

/// Whether the struct described by `facts` satisfies `matcher`.
pub fn evaluate_struct_match(matcher: &StructMatch, facts: &StructFacts) -> (r: bool)
    ensures
        r == struct_match_holds(*matcher, *facts),
    decreases matcher,
{
    match matcher {
        StructMatch::Name(pattern) => pattern_matches_or_equal(pattern.as_str(), facts.name.as_str()),
        StructMatch::HasAttribute(pattern) => facts.has_matching_attribute(pattern.as_str()),
        StructMatch::ImplementsTrait(pattern) => facts.implements_matching_trait(pattern.as_str()),
        StructMatch::AndMatches(left, right) => evaluate_struct_match(left, facts) && evaluate_struct_match(
            right,
            facts,
        ),
        StructMatch::OrMatches(left, right) => evaluate_struct_match(left, facts) || evaluate_struct_match(
            right,
            facts,
        ),
        StructMatch::NotMatch(inner) => !evaluate_struct_match(inner, facts),
    }
}

/// The report for a violated name rule: `must_match` tells whether the name
/// was required to match pattern `p` or required not to.
pub open spec fn name_finding(must_match: bool, p: Seq<char>, sev: Severity, f: StructFacts) -> FindingView {
    if must_match {
        FindingView {
            lint: LintId::StructMustBeNamed,
            severity: sev,
            site: Site::Item,
            message: "Struct must match "@ + pattern_kind(p) + " '"@ + p + "', found '"@ + f.name@ + "'"@,
            help: if looks_like_pattern(p) {
                "Rename this struct to match the pattern '"@ + p + "'"@
            } else {
                "Rename this struct to '"@ + p + "'"@
            },
        }
    } else {
        FindingView {
            lint: LintId::StructMustNotBeNamed,
            severity: sev,
            site: Site::Item,
            message: "Struct must not match "@ + pattern_kind(p) + " '"@ + p + "'"@,
            help: "Choose a name that doesn't match this pattern"@,
        }
    }
}

/// How the struct's visibility is described when it must be private.
pub open spec fn visibility_unlike_private(f: StructFacts) -> Seq<char> {
    if f.is_public {
        "pub"@
    } else if f.is_pub_crate {
        "pub(crate)"@
    } else {
        "restricted"@
    }
}

/// How the struct's visibility is described when it must be `pub`.
pub open spec fn visibility_unlike_public(f: StructFacts) -> Seq<char> {
    if f.is_pub_crate {
        "pub(crate)"@
    } else {
        "private"@
    }
}

/// How the struct's visibility is described when it must be `pub(crate)`.
pub open spec fn visibility_unlike_pub_crate(f: StructFacts) -> Seq<char> {
    if f.is_public {
        "pub"@
    } else {
        "private"@
    }
}

/// A finding about the struct itself.
pub open spec fn struct_finding(lint: LintId, sev: Severity, message: Seq<char>, help: Seq<char>) -> FindingView {
    FindingView { lint, severity: sev, site: Site::Item, message, help }
}

/// The report for leaf rule `r`, which was expected to have value `expected`
/// and does not.
pub open spec fn struct_violation_finding(r: StructRule, expected: bool, f: StructFacts) -> FindingView {
    let name = f.name@;
    match r {
        StructRule::MustBeNamed(p, sev) => name_finding(expected, p@, sev, f),
        StructRule::MustNotBeNamed(p, sev) => name_finding(!expected, p@, sev, f),
        StructRule::MustBePrivate(sev) => if expected {
            struct_finding(
                LintId::StructMustBePrivate,
                sev,
                "Struct '"@ + name + "' has "@ + visibility_unlike_private(f) + " visibility, but must be private"@,
                "Remove the visibility modifier"@,
            )
        } else {
            struct_finding(
                LintId::StructMustBePrivate,
                sev,
                "Struct '"@ + name + "' must not be private"@,
                "Add an explicit visibility modifier"@,
            )
        },
        StructRule::MustBePublic(sev) => if expected {
            struct_finding(
                LintId::StructMustBePublic,
                sev,
                "Struct '"@ + name + "' has "@ + visibility_unlike_public(f) + " visibility, but must be pub"@,
                "Change the visibility to 'pub'"@,
            )
        } else {
            struct_finding(
                LintId::StructMustBePublic,
                sev,
                "Struct '"@ + name + "' must not be pub"@,
                "Restrict this struct's visibility"@,
            )
        },
        StructRule::MustBePubCrate(sev) => if expected {
            struct_finding(
                LintId::StructMustBePubCrate,
                sev,
                "Struct '"@ + name + "' has "@ + visibility_unlike_pub_crate(f)
                    + " visibility, but must be pub(crate)"@,
                "Change the visibility to 'pub(crate)'"@,
            )
        } else {
            struct_finding(
                LintId::StructMustBePubCrate,
                sev,
                "Struct '"@ + name + "' must not be pub(crate)"@,
                "Change this struct's visibility"@,
            )
        },
        StructRule::ImplementsTrait(p, sev) => if expected {
            struct_finding(
                LintId::StructImplementsTrait,
                sev,
                "Struct '"@ + name + "' must implement trait matching '"@ + p@ + "'"@,
                "Implement the required trait for this struct"@,
            )
        } else {
            struct_finding(
                LintId::StructImplementsTrait,
                sev,
                "Struct '"@ + name + "' must not implement trait matching '"@ + p@ + "'"@,
                "Remove the forbidden trait implementation"@,
            )
        },
        _ => struct_finding(LintId::StructMustBeNamed, Severity::Warn, Seq::empty(), Seq::empty()),
    }
}

/// The reports for a list of violations.
pub open spec fn struct_reports(vs: Seq<(StructRule, bool)>, f: StructFacts) -> Seq<FindingView> {
    vs.map_values(|v: (StructRule, bool)| struct_violation_finding(v.0, v.1, f))
}

/// The reports for the violations of each rule in turn, each rule expected to hold.
pub open spec fn struct_findings(rules: Seq<StructRule>, f: StructFacts) -> Seq<FindingView>
    decreases rules.len(),
{
    if rules.len() == 0 {
        Seq::empty()
    } else {
        struct_findings(rules.drop_last(), f) + struct_reports(violations_of(rules.last(), true, leaf_valuation(f)), f)
    }
}

/// The single report of a visibility rule that a struct breaks.
pub open spec fn visibility_report(r: StructRule, f: StructFacts) -> Seq<FindingView> {
    seq![struct_violation_finding(r, true, f)]
}

/// What the visibility rules report: `must be private` is broken exactly by a
/// struct written with a visibility keyword (`pub`, `pub(crate)` or a
/// restricted one), `must be pub` exactly by a struct that is not visible
/// everywhere, and `must be pub(crate)` exactly by a struct not written
/// `pub(crate)`; each broken rule gives one report naming the struct and its
/// visibility, and a rule that holds gives none.
pub proof fn lemma_visibility_rules(f: StructFacts, sev: Severity)
    ensures
        struct_findings(seq![StructRule::MustBePrivate(sev)], f) == (if f.has_visibility_keyword {
            seq![
                struct_finding(
                    LintId::StructMustBePrivate,
                    sev,
                    "Struct '"@ + f.name@ + "' has "@ + (if f.is_public {
                        "pub"@
                    } else if f.is_pub_crate {
                        "pub(crate)"@
                    } else {
                        "restricted"@
                    }) + " visibility, but must be private"@,
                    "Remove the visibility modifier"@,
                ),
            ]
        } else {
            Seq::<FindingView>::empty()
        }),
        struct_findings(seq![StructRule::MustBePublic(sev)], f) == (if !f.is_public {
            seq![
                struct_finding(
                    LintId::StructMustBePublic,
                    sev,
                    "Struct '"@ + f.name@ + "' has "@ + (if f.is_pub_crate {
                        "pub(crate)"@
                    } else {
                        "private"@
                    }) + " visibility, but must be pub"@,
                    "Change the visibility to 'pub'"@,
                ),
            ]
        } else {
            Seq::<FindingView>::empty()
        }),
        struct_findings(seq![StructRule::MustBePubCrate(sev)], f) == (if !f.is_pub_crate {
            seq![
                struct_finding(
                    LintId::StructMustBePubCrate,
                    sev,
                    "Struct '"@ + f.name@ + "' has "@ + (if f.is_public {
                        "pub"@
                    } else {
                        "private"@
                    }) + " visibility, but must be pub(crate)"@,
                    "Change the visibility to 'pub(crate)'"@,
                ),
            ]
        } else {
            Seq::<FindingView>::empty()
        }),
{
    let v = leaf_valuation(f);
    let e = Seq::<StructRule>::empty();
    assert(seq![StructRule::MustBePrivate(sev)].drop_last() =~= e);
    assert(seq![StructRule::MustBePublic(sev)].drop_last() =~= e);
    assert(seq![StructRule::MustBePubCrate(sev)].drop_last() =~= e);
    assert(struct_findings(e, f) == Seq::<FindingView>::empty());
    let rs = seq![StructRule::MustBePrivate(sev), StructRule::MustBePublic(sev), StructRule::MustBePubCrate(sev)];
    assert forall|k: int| 0 <= k < 3 implies {
        let r = #[trigger] rs[k];
        &&& rule_holds(r, v) == struct_leaf_holds(r, f)
        &&& violations_of(r, true, v) == (if struct_leaf_holds(r, f) {
            Seq::<(StructRule, bool)>::empty()
        } else {
            seq![(r, true)]
        })
        &&& struct_reports(violations_of(r, true, v), f) =~= (if struct_leaf_holds(r, f) {
            Seq::<FindingView>::empty()
        } else {
            visibility_report(r, f)
        })
    } by {}
    assert(rs[0] == StructRule::MustBePrivate(sev));
    assert(rs[1] == StructRule::MustBePublic(sev));
    assert(rs[2] == StructRule::MustBePubCrate(sev));
    assert(struct_findings(seq![StructRule::MustBePrivate(sev)], f) =~= Seq::<FindingView>::empty() + struct_reports(
        violations_of(StructRule::MustBePrivate(sev), true, v),
        f,
    ));
    assert(struct_findings(seq![StructRule::MustBePublic(sev)], f) =~= Seq::<FindingView>::empty() + struct_reports(
        violations_of(StructRule::MustBePublic(sev), true, v),
        f,
    ));
    assert(struct_findings(seq![StructRule::MustBePubCrate(sev)], f) =~= Seq::<FindingView>::empty() + struct_reports(
        violations_of(StructRule::MustBePubCrate(sev), true, v),
        f,
    ));
}

proof fn lemma_single_leaf_findings(r: StructRule, f: StructFacts)
    requires
        is_leaf_rule(r),
    ensures
        struct_findings(seq![r], f) == (if struct_leaf_holds(r, f) {
            Seq::<FindingView>::empty()
        } else {
            seq![struct_violation_finding(r, true, f)]
        }),
{
    let v = leaf_valuation(f);
    assert(seq![r].drop_last() =~= Seq::<StructRule>::empty());
    assert(seq![r].last() == r);
    assert(struct_findings(Seq::<StructRule>::empty(), f) == Seq::<FindingView>::empty());
    assert(rule_holds(r, v) == struct_leaf_holds(r, f));
    assert(struct_findings(seq![r], f) =~= Seq::<FindingView>::empty() + struct_reports(violations_of(r, true, v), f));
    assert(struct_reports(violations_of(r, true, v), f) =~= (if struct_leaf_holds(r, f) {
        Seq::<FindingView>::empty()
    } else {
        seq![struct_violation_finding(r, true, f)]
    }));
}

/// What the name and trait rules report for a struct: `must be named` reports
/// once exactly when the name does not match the pattern (a pattern that does
/// not compile matching only the name equal to it), `must not be named` once
/// exactly when it does, each giving the pattern and the name; `implements
/// trait` reports once exactly when none of the struct's traits matches. A
/// pattern without regular expression characters is described as a name.
pub proof fn lemma_struct_name_rules(f: StructFacts, p: String, sev: Severity)
    ensures
        struct_findings(seq![StructRule::MustBeNamed(p, sev)], f) == (if matches_or_equal(p@, f.name@) {
            Seq::<FindingView>::empty()
        } else {
            seq![
                FindingView {
                    lint: LintId::StructMustBeNamed,
                    severity: sev,
                    site: Site::Item,
                    message: "Struct must match "@ + pattern_kind(p@) + " '"@ + p@ + "', found '"@ + f.name@ + "'"@,
                    help: if looks_like_pattern(p@) {
                        "Rename this struct to match the pattern '"@ + p@ + "'"@
                    } else {
                        "Rename this struct to '"@ + p@ + "'"@
                    },
                },
            ]
        }),
        struct_findings(seq![StructRule::MustNotBeNamed(p, sev)], f).len() == (if matches_or_equal(p@, f.name@) {
            1int
        } else {
            0int
        }),
        struct_findings(seq![StructRule::MustNotBeNamed(p, sev)], f).len() == 1 ==> struct_findings(
            seq![StructRule::MustNotBeNamed(p, sev)],
            f,
        )[0].lint == LintId::StructMustNotBeNamed,
        struct_findings(seq![StructRule::ImplementsTrait(p, sev)], f) == (if (exists|i: int|
            0 <= i < f.implemented_traits@.len() && matches_or_false(p@, #[trigger] f.implemented_traits@[i]@)) {
            Seq::<FindingView>::empty()
        } else {
            seq![
                struct_finding(
                    LintId::StructImplementsTrait,
                    sev,
                    "Struct '"@ + f.name@ + "' must implement trait matching '"@ + p@ + "'"@,
                    "Implement the required trait for this struct"@,
                ),
            ]
        }),
        (forall|i: int| 0 <= i < p@.len() ==> !is_pattern_char(#[trigger] p@[i])) ==> pattern_kind(p@) == "name"@,
        (exists|i: int| 0 <= i < p@.len() && (#[trigger] p@[i] == '*' || p@[i] == '.' || p@[i] == '^' || p@[i]
            == '$')) ==> pattern_kind(p@) == "pattern"@,
{
    lemma_single_leaf_findings(StructRule::MustBeNamed(p, sev), f);
    lemma_single_leaf_findings(StructRule::MustNotBeNamed(p, sev), f);
    lemma_single_leaf_findings(StructRule::ImplementsTrait(p, sev), f);
}

fn name_report(must_match: bool, pattern: &String, severity: Severity, facts: &StructFacts) -> (r: Finding)
    ensures
        r@ == name_finding(must_match, pattern@, severity, *facts),
{
    let kind = describe_pattern(pattern.as_str());
    if must_match {
        let mut message = String::from_str("Struct must match ");
        message.append(kind);
        message.append(" '");
        message.append(pattern.as_str());
        message.append("', found '");
        message.append(facts.name.as_str());
        message.append("'");
        let mut help = if has_pattern_chars(pattern.as_str()) {
            String::from_str("Rename this struct to match the pattern '")
        } else {
            String::from_str("Rename this struct to '")
        };
        help.append(pattern.as_str());
        help.append("'");
        Finding { lint: LintId::StructMustBeNamed, severity, site: Site::Item, message, help }
    } else {
        let mut message = String::from_str("Struct must not match ");
        message.append(kind);
        message.append(" '");
        message.append(pattern.as_str());
        message.append("'");
        Finding {
            lint: LintId::StructMustNotBeNamed,
            severity,
            site: Site::Item,
            message,
            help: String::from_str("Choose a name that doesn't match this pattern"),
        }
    }
}

fn item_report(lint: LintId, severity: Severity, parts: (&str, &str, &str, &str, &str), help: &str) -> (r: Finding)
    ensures
        r@ == struct_finding(lint, severity, parts.0@ + parts.1@ + parts.2@ + parts.3@ + parts.4@, help@),
{
    let mut message = String::from_str(parts.0);
    message.append(parts.1);
    message.append(parts.2);
    message.append(parts.3);
    message.append(parts.4);
    Finding { lint, severity, site: Site::Item, message, help: String::from_str(help) }
}

/// The report for leaf rule `rule`, expected to have value `expected`.
pub fn report_struct_violation(rule: &StructRule, expected: bool, facts: &StructFacts) -> (r: Finding)
    requires
        is_leaf_rule(*rule),
    ensures
        r@ == struct_violation_finding(*rule, expected, *facts),
{
    proof {
        reveal_strlit("");
    }
    let name = facts.name.as_str();
    match rule {
        StructRule::MustBeNamed(pattern, severity) => name_report(expected, pattern, *severity, facts),
        StructRule::MustNotBeNamed(pattern, severity) => name_report(!expected, pattern, *severity, facts),
        StructRule::MustBePrivate(severity) => {
            if expected {
                let desc = if facts.is_public {
                    "pub"
                } else if facts.is_pub_crate {
                    "pub(crate)"
                } else {
                    "restricted"
                };
                item_report(
                    LintId::StructMustBePrivate,
                    *severity,
                    ("Struct '", name, "' has ", desc, " visibility, but must be private"),
                    "Remove the visibility modifier",
                )
            } else {
                item_report(
                    LintId::StructMustBePrivate,
                    *severity,
                    ("Struct '", name, "' must not be private", "", ""),
                    "Add an explicit visibility modifier",
                )
            }
        },
        StructRule::MustBePublic(severity) => {
            if expected {
                let desc = if facts.is_pub_crate {
                    "pub(crate)"
                } else {
                    "private"
                };
                item_report(
                    LintId::StructMustBePublic,
                    *severity,
                    ("Struct '", name, "' has ", desc, " visibility, but must be pub"),
                    "Change the visibility to 'pub'",
                )
            } else {
                item_report(
                    LintId::StructMustBePublic,
                    *severity,
                    ("Struct '", name, "' must not be pub", "", ""),
                    "Restrict this struct's visibility",
                )
            }
        },
        StructRule::MustBePubCrate(severity) => {
            if expected {
                let desc = if facts.is_public {
                    "pub"
                } else {
                    "private"
                };
                item_report(
                    LintId::StructMustBePubCrate,
                    *severity,
                    ("Struct '", name, "' has ", desc, " visibility, but must be pub(crate)"),
                    "Change the visibility to 'pub(crate)'",
                )
            } else {
                item_report(
                    LintId::StructMustBePubCrate,
                    *severity,
                    ("Struct '", name, "' must not be pub(crate)", "", ""),
                    "Change this struct's visibility",
                )
            }
        },
        StructRule::ImplementsTrait(pattern, severity) => {
            if expected {
                item_report(
                    LintId::StructImplementsTrait,
                    *severity,
                    ("Struct '", name, "' must implement trait matching '", pattern.as_str(), "'"),
                    "Implement the required trait for this struct",
                )
            } else {
                item_report(
                    LintId::StructImplementsTrait,
                    *severity,
                    ("Struct '", name, "' must not implement trait matching '", pattern.as_str(), "'"),
                    "Remove the forbidden trait implementation",
                )
            }
        },
        _ => {
            item_report(LintId::StructMustBeNamed, Severity::Warn, ("", "", "", "", ""), "")
        },
    }
}

/// A configured struct lint, ready to check structs.
#[derive(Debug)]
pub struct StructLint {
    pub name: String,
    pub matches: StructMatch,
    pub struct_rules: Vec<StructRule>,
}

impl StructLint {
    /// The struct lint configured by `config`, which must be a struct lint.
    pub fn new(config: &ConfiguredLint) -> (r: StructLint)
        requires
            config is Struct,
        ensures
            config matches ConfiguredLint::Struct(s) && r.name == s.name && r.matches == s.matches
                && r.struct_rules@ == s.rules@,
    {
        match config {
            ConfiguredLint::Struct(s) => StructLint {
                name: s.name.clone(),
                matches: copy_struct_match(&s.matches),
                struct_rules: copy_struct_rules(&s.rules),
            },
            _ => StructLint { name: String::new(), matches: StructMatch::Name(String::new()), struct_rules: Vec::new() },
        }
    }

    /// Whether the lint selects the struct described by `facts`.
    pub fn matches_struct(&self, facts: &StructFacts) -> (r: bool)
        ensures
            r == struct_match_holds(self.matches, *facts),
    {
        evaluate_struct_match(&self.matches, facts)
    }

    /// What the lint reports for the struct described by `facts`: nothing when
    /// it does not select the struct; else, for each configured rule in turn
    /// (each expected to hold), one report per leaf rule that makes it fail.
    pub fn check_struct(&self, facts: &StructFacts) -> (r: Vec<Finding>)
        ensures
            finding_views(r@) == (if struct_match_holds(self.matches, *facts) {
                struct_findings(self.struct_rules@, *facts)
            } else {
                Seq::empty()
            }),
    {
        let mut out: Vec<Finding> = Vec::new();
        if !self.matches_struct(facts) {
            assert(finding_views(out@) =~= Seq::<FindingView>::empty());
            return out;
        }
        let mut i: usize = 0;
        while i < self.struct_rules.len()
            invariant
                i <= self.struct_rules@.len(),
                finding_views(out@) == struct_findings(self.struct_rules@.take(i as int), *facts),
            decreases self.struct_rules.len() - i,
        {
            let rule = &self.struct_rules[i];
            let mut violations: Vec<(&StructRule, bool)> = Vec::new();
            let leaf = |r: &StructRule| -> (b: bool)
                ensures
                    b == struct_leaf_holds(*r, *facts),
                { facts.evaluate_leaf(r) };
            let ghost v = leaf_valuation(*facts);
            assert(decides(leaf, v)) by {
                assert forall|x: StructRule, b: bool| is_leaf_rule(x) && #[trigger] leaf.ensures((&x,), b) implies b
                    == v(x) by {
                    assert(b == struct_leaf_holds(x, *facts));
                }
            }
            collect_rule_violations(rule, true, &leaf, &mut violations);
            let ghost vs = violations_of(*rule, true, v);
            proof {
                assert(violation_values(Seq::<(&StructRule, bool)>::empty()) =~= Seq::<(StructRule, bool)>::empty());
                assert(violation_values(violations@) =~= vs);
                lemma_violations_are_failing_leaves(*rule, true, v);
            }
            let ghost start = finding_views(out@);
            let mut j: usize = 0;
            while j < violations.len()
                invariant
                    j <= violations@.len(),
                    violation_values(violations@) == vs,
                    forall|k: int| 0 <= k < vs.len() ==> is_leaf_rule(#[trigger] vs[k].0),
                    finding_views(out@) == start + struct_reports(vs.take(j as int), *facts),
                decreases violations.len() - j,
            {
                let (leaf, expected) = violations[j];
                assert(vs[j as int] == (*leaf, expected));
                let finding = report_struct_violation(leaf, expected, facts);
                let ghost before = out@;
                out.push(finding);
                assert(finding_views(out@) =~= finding_views(before).push(finding@));
                assert(vs.take(j + 1) =~= vs.take(j as int).push(vs[j as int]));
                assert(struct_reports(vs.take(j + 1), *facts) =~= struct_reports(vs.take(j as int), *facts).push(
                    struct_violation_finding(vs[j as int].0, vs[j as int].1, *facts),
                ));
                j = j + 1;
            }
            assert(vs.take(vs.len() as int) =~= vs);
            assert(self.struct_rules@.take(i + 1).drop_last() =~= self.struct_rules@.take(i as int));
            i = i + 1;
        }
        assert(self.struct_rules@.take(self.struct_rules@.len() as int) =~= self.struct_rules@);
        out
    }
}

impl ArchitectureLintRule for StructLint {
    fn name(&self) -> (r: String)
        ensures
            r@ == self.name@,
    {
        self.name.clone()
    }

    /// Struct lints constrain no module.
    fn applies_to_module(&self, namespace: &str) -> (r: bool)
        ensures
            !r,
    {
        false
    }

    /// A struct lint constrains the traits its matcher names.
    fn applies_to_trait(&self, trait_path: &str) -> (r: bool)
        ensures
            r == references_trait(self.matches, trait_path@),
    {
        matcher_references_trait(&self.matches, trait_path)
    }
}

} // verus!
