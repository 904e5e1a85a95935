//! The trait implementation lint: constraints on the structs that implement a
//! trait, and sample configurations for it.
use vstd::prelude::*;
use vstd::string::*;
use crate::config::severity::Severity;
use crate::lints::finding::{Finding, FindingView, LintId, Site, finding_views};
use crate::lints::rule::ArchitectureLintRule;
use crate::lints::config_map::ConfigMap;
use crate::pattern::{matches_or_false, pattern_matches, regex_compiles, regex_is_match, regex_matches};
use crate::project_context::{ProjectContext, TraitInfo, views};
use crate::text::{join, join_strings, last_piece, last_segment, replace_all, replace_str, to_lowercase, unicode_lowercase};

verus! {

/// The visibility a trait's implementors must have.
#[derive(Debug, Clone, Copy, PartialEq, Eq, Structural)]
pub enum RequiredVisibility {
    Private,
    Public,
}

/// Configuration of a trait implementation rule.
#[derive(Debug)]
pub struct TraitImplConfiguration {
    /// Regex on the full canonical name of the trait.
    pub source_name: String,
    /// Regex the implementing struct's name must match.
    pub name_must_match: Option<String>,
    /// The visibility the implementing struct must have.
    pub enforce_visibility: Option<RequiredVisibility>,
    pub severity: Severity,
}

/// What the trait implementation lint needs to know of an `impl` of a trait.
#[derive(Debug)]
pub struct TraitImplFacts {
    /// The full canonical name of the implemented trait.
    pub trait_name: String,
    /// The name of the implementing struct, when it is a struct of this crate.
    pub struct_name: Option<String>,
    /// Whether that struct is visible everywhere.
    pub struct_is_public: bool,
}

/// A trait implementation rule ready to check `impl` blocks.
#[derive(Debug)]
pub struct TraitImplLintProcessor {
    name: String,
    rule: TraitImplConfiguration,
}

/// A finding of the trait implementation lint.
pub open spec fn trait_impl_finding(sev: Severity, message: Seq<char>, help: Seq<char>) -> FindingView {
    FindingView { lint: LintId::TraitImpl, severity: sev, site: Site::Item, message, help }
}

/// What a rule reports for an `impl`: for a struct of the crate implementing a
/// trait the rule selects, a report if its name does not match the required
/// pattern, then one if its visibility is not the required one.
pub open spec fn trait_impl_findings(rule: TraitImplConfiguration, f: TraitImplFacts) -> Seq<FindingView> {
    if regex_matches(rule.source_name@, f.trait_name@) {
        match f.struct_name {
            Some(n) => {
                let name_part = match rule.name_must_match {
                    Some(p) => if !regex_matches(p@, n@) {
                        seq![
                            trait_impl_finding(
                                rule.severity,
                                "Struct '"@ + n@ + "' does not match the required pattern '"@ + p@ + "'."@,
                                "Consider renaming the struct."@,
                            ),
                        ]
                    } else {
                        Seq::empty()
                    },
                    None => Seq::empty(),
                };
                let visibility_part = match rule.enforce_visibility {
                    Some(RequiredVisibility::Private) => if f.struct_is_public {
                        seq![
                            trait_impl_finding(
                                rule.severity,
                                "Struct '"@ + n@ + "' is public, but should be private."@,
                                "Change the visibility to private."@,
                            ),
                        ]
                    } else {
                        Seq::empty()
                    },
                    Some(RequiredVisibility::Public) => if !f.struct_is_public {
                        seq![
                            trait_impl_finding(
                                rule.severity,
                                "Struct '"@ + n@ + "' is private, but should be public."@,
                                "Change the visibility to public."@,
                            ),
                        ]
                    } else {
                        Seq::empty()
                    },
                    None => Seq::empty(),
                };
                name_part + visibility_part
            },
            None => Seq::empty(),
        }
    } else {
        Seq::empty()
    }
}

/// What a trait implementation rule reports for an `impl`. Nothing, unless
/// the rule selects the implemented trait and the implementor is a struct of
/// the crate. Then one report when the struct's name does not match the
/// required pattern, whatever the struct's visibility, and one when its
/// visibility is not the required one, in that order, and no other.
pub proof fn lemma_trait_impl_reports(rule: TraitImplConfiguration, f: TraitImplFacts)
    ensures
        !regex_matches(rule.source_name@, f.trait_name@) || f.struct_name is None ==> trait_impl_findings(rule, f)
            == Seq::<FindingView>::empty(),
        regex_matches(rule.source_name@, f.trait_name@) && f.struct_name is Some ==> ({
            let n = f.struct_name.unwrap()@;
            let out = trait_impl_findings(rule, f);
            let naming_broken = rule.name_must_match matches Some(p) && !regex_matches(p@, n);
            let visibility_broken = (rule.enforce_visibility == Some(RequiredVisibility::Private)
                && f.struct_is_public) || (rule.enforce_visibility == Some(RequiredVisibility::Public)
                && !f.struct_is_public);
            &&& out.len() == (if naming_broken {
                1int
            } else {
                0int
            }) + (if visibility_broken {
                1int
            } else {
                0int
            })
            &&& naming_broken ==> out[0] == trait_impl_finding(
                rule.severity,
                "Struct '"@ + n + "' does not match the required pattern '"@ + rule.name_must_match.unwrap()@
                    + "'."@,
                "Consider renaming the struct."@,
            )
            &&& visibility_broken ==> out.last() == (if f.struct_is_public {
                trait_impl_finding(
                    rule.severity,
                    "Struct '"@ + n + "' is public, but should be private."@,
                    "Change the visibility to private."@,
                )
            } else {
                trait_impl_finding(
                    rule.severity,
                    "Struct '"@ + n + "' is private, but should be public."@,
                    "Change the visibility to public."@,
                )
            })
        }),
{
}

/// Whether checking `f` under `rule` needs the name pattern compiled.
pub open spec fn needs_name_pattern(rule: TraitImplConfiguration, f: TraitImplFacts) -> bool {
    regex_matches(rule.source_name@, f.trait_name@) && f.struct_name is Some && rule.name_must_match is Some
}

/// Whether the pattern a check may need compiles.
pub open spec fn name_pattern_ok(rule: TraitImplConfiguration, f: TraitImplFacts) -> bool {
    needs_name_pattern(rule, f) ==> regex_compiles(rule.name_must_match.unwrap()@)
}

impl TraitImplLintProcessor {
    #[verifier::type_invariant]
    spec fn source_compiles(self) -> bool {
        regex_compiles(self.rule.source_name@)
    }

    /// The rule's name.
    pub closed spec fn rule_name(self) -> Seq<char> {
        self.name@
    }

    /// The rule's configuration.
    pub closed spec fn configuration(self) -> TraitImplConfiguration {
        self.rule
    }

    /// A processor for `rule` under `name`; the trait pattern must compile.
    pub fn new(name: String, rule: TraitImplConfiguration) -> (r: Self)
        requires
            regex_compiles(rule.source_name@),
        ensures
            r.rule_name() == name@,
            r.configuration() == rule,
    {
        TraitImplLintProcessor { name, rule }
    }

    /// A processor for `rule` under `name`, or nothing when the trait pattern
    /// does not compile.
    pub fn try_new(name: String, rule: TraitImplConfiguration) -> (r: Option<Self>)
        ensures
            r is Some <==> regex_compiles(rule.source_name@),
            r matches Some(p) ==> p.rule_name() == name@ && p.configuration() == rule,
    {
        let compiles = regex_is_match(rule.source_name.as_str(), "").is_some();
        if compiles {
            Some(Self::new(name, rule))
        } else {
            None
        }
    }

    /// What the rule reports for the `impl` described by `facts`. When the
    /// check gets to the name pattern, that pattern must compile.
    pub fn check_impl(&self, facts: &TraitImplFacts) -> (r: Vec<Finding>)
        requires
            name_pattern_ok(self.configuration(), *facts),
        ensures
            finding_views(r@) == trait_impl_findings(self.configuration(), *facts),
    {
        proof {
            use_type_invariant(self);
        }
        let mut out: Vec<Finding> = Vec::new();
        let rule = &self.rule;
        if !pattern_matches(rule.source_name.as_str(), facts.trait_name.as_str()) {
            assert(finding_views(out@) =~= Seq::<FindingView>::empty());
            return out;
        }
        let n = match &facts.struct_name {
            Some(n) => n,
            None => {
                assert(finding_views(out@) =~= Seq::<FindingView>::empty());
                return out;
            },
        };
        if let Some(p) = &rule.name_must_match {
            if !pattern_matches(p.as_str(), n.as_str()) {
                let mut message = String::from_str("Struct '");
                message.append(n.as_str());
                message.append("' does not match the required pattern '");
                message.append(p.as_str());
                message.append("'.");
                out.push(
                    Finding {
                        lint: LintId::TraitImpl,
                        severity: rule.severity,
                        site: Site::Item,
                        message,
                        help: String::from_str("Consider renaming the struct."),
                    },
                );
            }
        }
        let ghost first = finding_views(out@);
        match rule.enforce_visibility {
            Some(RequiredVisibility::Private) => {
                if facts.struct_is_public {
                    let mut message = String::from_str("Struct '");
                    message.append(n.as_str());
                    message.append("' is public, but should be private.");
                    out.push(
                        Finding {
                            lint: LintId::TraitImpl,
                            severity: rule.severity,
                            site: Site::Item,
                            message,
                            help: String::from_str("Change the visibility to private."),
                        },
                    );
                }
            },
            Some(RequiredVisibility::Public) => {
                if !facts.struct_is_public {
                    let mut message = String::from_str("Struct '");
                    message.append(n.as_str());
                    message.append("' is private, but should be public.");
                    out.push(
                        Finding {
                            lint: LintId::TraitImpl,
                            severity: rule.severity,
                            site: Site::Item,
                            message,
                            help: String::from_str("Change the visibility to public."),
                        },
                    );
                }
            },
            None => {},
        }
        assert(finding_views(out@) =~= trait_impl_findings(self.configuration(), *facts));
        out
    }

    /// What the rule reports for the `impl` described by `facts`, or nothing
    /// when the name pattern it gets to does not compile.
    pub fn check_impl_checked(&self, facts: &TraitImplFacts) -> (r: Option<Vec<Finding>>)
        ensures
            r is Some <==> name_pattern_ok(self.configuration(), *facts),
            r matches Some(v) ==> finding_views(v@) == trait_impl_findings(self.configuration(), *facts),
    {
        proof {
            use_type_invariant(self);
        }
        let rule = &self.rule;
        if pattern_matches(rule.source_name.as_str(), facts.trait_name.as_str()) && facts.struct_name.is_some() {
            if let Some(p) = &rule.name_must_match {
                if regex_is_match(p.as_str(), "").is_none() {
                    return None;
                }
            }
        }
        Some(self.check_impl(facts))
    }
}

impl ArchitectureLintRule for TraitImplLintProcessor {
    fn name(&self) -> (r: String)
        ensures
            r@ == self.rule_name(),
    {
        self.name.clone()
    }

    /// Trait implementation rules constrain no module.
    fn applies_to_module(&self, namespace: &str) -> (r: bool)
        ensures
            !r,
    {
        false
    }

    /// A rule constrains the traits its pattern matches.
    fn applies_to_trait(&self, trait_path: &str) -> (r: bool)
        ensures
            r == regex_matches(self.configuration().source_name@, trait_path@),
    {
        proof {
            use_type_invariant(self);
        }
        pattern_matches(self.rule.source_name.as_str(), trait_path)
    }
}

/// The sample rule for a trait: `{0}` and `{2}` stand for the trait's name,
/// `{1}` for its implementors, `{3}` for the last piece of its name.
pub const TRAIT_IMPL_TEMPLATE: &'static str = "# Trait implementation lint for {0}
# Current implementors:
#   {1}
type: trait_impl
source_name: \"{2}\"
name_must_match: \".*{3}Impl\"
enforce_visibility: \"Private\"
severity: Warn
";

/// The sample rule offered when no trait has implementors.
pub const TRAIT_IMPL_GENERIC_TEMPLATE: &'static str = "# Example trait implementation rule
# Implementors of the trait must be private and named after it.
type: trait_impl
source_name: \"core::example::Trait\"
name_must_match: \".*TraitImpl\"
enforce_visibility: \"Private\"
severity: Warn
";

/// The name of the sample rule for trait `name` in crate `root`.
pub open spec fn trait_rule_key(root: Seq<char>, name: Seq<char>) -> Seq<char> {
    root + "_enforce_"@ + unicode_lowercase(last_piece(name)) + "_impl"@
}

/// The sample rule for trait `t`.
pub open spec fn trait_rule_text(t: TraitInfo) -> Seq<char> {
    let name = t.name@;
    replace_all(
        replace_all(
            replace_all(
                replace_all(TRAIT_IMPL_TEMPLATE@, "{0}"@, name),
                "{1}"@,
                join(views(t.implementors@), "\n#   "@),
            ),
            "{2}"@,
            name,
        ),
        "{3}"@,
        last_piece(name),
    )
}

/// The sample rules for the traits with implementors among `traits`, a later
/// rule replacing an earlier one of the same name.
pub open spec fn sample_rules(root: Seq<char>, traits: Seq<TraitInfo>) -> Map<Seq<char>, Seq<char>>
    decreases traits.len(),
{
    if traits.len() == 0 {
        Map::empty()
    } else {
        let m = sample_rules(root, traits.drop_last());
        let t = traits.last();
        if t.implementors@.len() > 0 {
            m.insert(trait_rule_key(root, t.name@), trait_rule_text(t))
        } else {
            m
        }
    }
}

/// The sample configuration for a crate: the sample rules for the first three
/// traits (those with implementors), or, when that gives none, the generic
/// sample under `{root}_enforce_trait_impl`.
pub open spec fn generated_trait_configs(root: Seq<char>, traits: Seq<TraitInfo>) -> Map<Seq<char>, Seq<char>> {
    let n = if traits.len() < 3 {
        traits.len() as int
    } else {
        3
    };
    let m = sample_rules(root, traits.take(n));
    if m.dom().len() == 0 {
        map![root + "_enforce_trait_impl"@ => TRAIT_IMPL_GENERIC_TEMPLATE@]
    } else {
        m
    }
}

/// `key` is the rule name of one of `traits` that has implementors.
pub open spec fn rule_key_of_some(root: Seq<char>, traits: Seq<TraitInfo>, key: Seq<char>) -> bool {
    exists|k: int|
        0 <= k < traits.len() && (#[trigger] traits[k]).implementors@.len() > 0 && key == trait_rule_key(
            root,
            traits[k].name@,
        )
}

proof fn lemma_sample_rules_dom(root: Seq<char>, traits: Seq<TraitInfo>)
    ensures
        sample_rules(root, traits).dom().finite(),
        forall|key: Seq<char>| #[trigger] sample_rules(root, traits).dom().contains(key) <==> rule_key_of_some(
            root,
            traits,
            key,
        ),
    decreases traits.len(),
{
    if traits.len() > 0 {
        let init = traits.drop_last();
        lemma_sample_rules_dom(root, init);
        let t = traits.last();
        assert forall|key: Seq<char>| #[trigger] sample_rules(root, traits).dom().contains(key) <==> rule_key_of_some(
            root,
            traits,
            key,
        ) by {
            if sample_rules(root, traits).dom().contains(key) {
                if sample_rules(root, init).dom().contains(key) {
                    let k = choose|k: int|
                        0 <= k < init.len() && (#[trigger] init[k]).implementors@.len() > 0 && key == trait_rule_key(
                            root,
                            init[k].name@,
                        );
                    assert(traits[k] == init[k]);
                } else {
                    assert(traits[traits.len() - 1] == t);
                }
            }
            if rule_key_of_some(root, traits, key) {
                let k = choose|k: int|
                    0 <= k < traits.len() && (#[trigger] traits[k]).implementors@.len() > 0 && key == trait_rule_key(
                        root,
                        traits[k].name@,
                    );
                if k < traits.len() - 1 {
                    assert(init[k] == traits[k]);
                    assert(rule_key_of_some(root, init, key));
                } else {
                    assert(traits[k] == t);
                }
            }
        }
    } else {
        assert(sample_rules(root, traits).dom() =~= Set::<Seq<char>>::empty());
    }
}

/// The traits a sample configuration is made from: the first three.
pub open spec fn sampled_traits(traits: Seq<TraitInfo>) -> Seq<TraitInfo> {
    traits.take(
        if traits.len() < 3 {
            traits.len() as int
        } else {
            3
        },
    )
}

/// The sample configuration of a crate holds a sample rule, under its name,
/// for each of the crate's first three traits that has implementors, and no
/// other rule; when none of them has implementors, it holds exactly the
/// generic sample, under the crate's name followed by `_enforce_trait_impl`.
pub proof fn lemma_sample_config(root: Seq<char>, traits: Seq<TraitInfo>)
    ensures
        forall|k: int|
            0 <= k < sampled_traits(traits).len() && (#[trigger] sampled_traits(traits)[k]).implementors@.len() > 0
                ==> generated_trait_configs(root, traits).dom().contains(
                trait_rule_key(root, sampled_traits(traits)[k].name@),
            ),
        (exists|k: int|
            0 <= k < sampled_traits(traits).len() && (#[trigger] sampled_traits(traits)[k]).implementors@.len() > 0)
            ==> forall|key: Seq<char>|
            #[trigger] generated_trait_configs(root, traits).dom().contains(key) ==> rule_key_of_some(
                root,
                sampled_traits(traits),
                key,
            ),
        (forall|k: int|
            0 <= k < sampled_traits(traits).len() ==> (#[trigger] sampled_traits(traits)[k]).implementors@.len() == 0)
            ==> generated_trait_configs(root, traits) == map![root + "_enforce_trait_impl"@ => TRAIT_IMPL_GENERIC_TEMPLATE@],
{
    let first = sampled_traits(traits);
    lemma_sample_rules_dom(root, first);
    let m = sample_rules(root, first);
    let g = generated_trait_configs(root, traits);
    if exists|k: int| 0 <= k < first.len() && (#[trigger] first[k]).implementors@.len() > 0 {
        let k = choose|k: int| 0 <= k < first.len() && (#[trigger] first[k]).implementors@.len() > 0;
        assert(rule_key_of_some(root, first, trait_rule_key(root, first[k].name@)));
        assert(m.dom().contains(trait_rule_key(root, first[k].name@)));
        vstd::set_lib::lemma_set_empty_equivalency_len(m.dom());
        assert(g == m);
        assert forall|j: int|
            0 <= j < first.len() && (#[trigger] first[j]).implementors@.len() > 0 implies g.dom().contains(
            trait_rule_key(root, first[j].name@),
        ) by {
            assert(rule_key_of_some(root, first, trait_rule_key(root, first[j].name@)));
        }
    } else {
        assert(m.dom() =~= Set::<Seq<char>>::empty()) by {
            assert forall|key: Seq<char>| !m.dom().contains(key) by {
                if m.dom().contains(key) {
                    assert(rule_key_of_some(root, first, key));
                }
            }
        }
        assert(m.dom().len() == 0);
    }
}

/// The sample rule for trait `t`.
fn trait_rule(t: &TraitInfo) -> (r: String)
    ensures
        r@ == trait_rule_text(*t),
{
    proof {
        reveal_strlit("{0}");
        reveal_strlit("{1}");
        reveal_strlit("{2}");
        reveal_strlit("{3}");
    }
    let impl_list = join_strings(&t.implementors, "\n#   ");
    assert(t.implementors@.map_values(|s: String| s@) == views(t.implementors@));
    let simple = last_segment(t.name.as_str());
    let a = replace_str(TRAIT_IMPL_TEMPLATE, "{0}", t.name.as_str());
    let b = replace_str(a.as_str(), "{1}", impl_list.as_str());
    let c = replace_str(b.as_str(), "{2}", t.name.as_str());
    replace_str(c.as_str(), "{3}", simple.as_str())
}

/// Builds the trait implementation rules of a configuration, and offers
/// sample configurations.
#[derive(Debug)]
pub struct TraitImplLintFactory {}

impl TraitImplLintFactory {
    /// A factory.
    pub fn new() -> (r: Self) {
        TraitImplLintFactory {  }
    }

    /// The sample configuration for the crate of `context` (see
    /// `generated_trait_configs`).
    pub fn sample_config(&self, context: &ProjectContext) -> (r: ConfigMap)
        ensures
            r.wf(),
            r@ == generated_trait_configs(context.module_root@, context.traits@),
    {
        let mut configs = ConfigMap::new();
        let traits = &context.traits;
        let n: usize = if traits.len() < 3 {
            traits.len()
        } else {
            3
        };
        let mut i: usize = 0;
        while i < n
            invariant
                n <= traits@.len(),
                n == (if traits@.len() < 3 {
                    traits@.len() as int
                } else {
                    3
                }),
                i <= n,
                configs.wf(),
                configs@ == sample_rules(context.module_root@, traits@.take(i as int)),
            decreases n - i,
        {
            let t = &traits[i];
            assert(traits@.take(i + 1).drop_last() =~= traits@.take(i as int));
            if t.implementors.len() > 0 {
                let simple = last_segment(t.name.as_str());
                let lower = to_lowercase(simple.as_str());
                let mut key = String::from_str(context.module_root.as_str());
                key.append("_enforce_");
                key.append(lower.as_str());
                key.append("_impl");
                let text = trait_rule(t);
                configs.insert(key, text);
            }
            i = i + 1;
        }
        if configs.len() == 0 {
            let mut key = String::from_str(context.module_root.as_str());
            key.append("_enforce_trait_impl");
            let mut generic = ConfigMap::new();
            generic.insert(key, String::from_str(TRAIT_IMPL_GENERIC_TEMPLATE));
            assert(generic@ =~= map![context.module_root@ + "_enforce_trait_impl"@ => TRAIT_IMPL_GENERIC_TEMPLATE@]);
            generic
        } else {
            configs
        }
    }
}

} // verus!
