//! The lint runner: what it does in each mode, and the description of a crate
//! (its modules and traits, and the lints that apply to them) it builds.
use vstd::prelude::*;
use vstd::string::*;
use crate::lints::function_lint::FunctionLint;
use crate::lints::module_lint::{ModuleLint, module_match_holds};
use crate::lints::name_set::{NamePair, insert_pair, pair_views, strictly_sorted};
use crate::lints::queries::{before_generics, get_canonical_type_name};
use crate::lints::rule::ArchitectureLintRule;
use crate::lints::struct_lint::{StructLint, references_trait};
use crate::lints::trait_impl::TraitImplLintProcessor;
use crate::pattern::regex_matches;
use crate::project_context::{ModuleInfo, ModuleInfoView, PUP_DIR, ProjectContext, TraitInfo, TraitInfoView, module_views, trait_views};
use crate::text::{contains_string, str_eq};

verus! {

/// What the runner is asked to do.
#[derive(Clone, PartialEq, Eq, Structural, Debug)]
pub enum Mode {
    /// Run the lints.
    Check,
    /// Describe the crate's modules.
    PrintModules,
    /// Describe the crate's traits.
    PrintTraits,
    /// Describe the crate, for generating a configuration.
    GenerateConfig,
}

/// A configured lint of any kind.
#[derive(Debug)]
pub enum LintRule {
    Module(ModuleLint),
    Struct(StructLint),
    Function(FunctionLint),
    TraitImpl(TraitImplLintProcessor),
}

/// The name of a configured lint.
pub open spec fn lint_rule_name(r: LintRule) -> Seq<char> {
    match r {
        LintRule::Module(m) => m.config.name@,
        LintRule::Struct(s) => s.name@,
        LintRule::Function(f) => f.name@,
        LintRule::TraitImpl(t) => t.rule_name(),
    }
}

/// Whether a configured lint constrains module `ns`: module lints whose
/// matcher selects it.
pub open spec fn lint_rule_applies_to_module(r: LintRule, ns: Seq<char>) -> bool {
    match r {
        LintRule::Module(m) => module_match_holds(m.config.matches, ns),
        _ => false,
    }
}

/// Whether a configured lint constrains trait `path`: struct lints whose
/// matcher names it, and trait implementation rules whose pattern matches it.
pub open spec fn lint_rule_applies_to_trait(r: LintRule, path: Seq<char>) -> bool {
    match r {
        LintRule::Struct(s) => references_trait(s.matches, path),
        LintRule::TraitImpl(t) => regex_matches(t.configuration().source_name@, path),
        _ => false,
    }
}

impl ArchitectureLintRule for LintRule {
    fn name(&self) -> (r: String)
        ensures
            r@ == lint_rule_name(*self),
    {
        match self {
            LintRule::Module(m) => m.name(),
            LintRule::Struct(s) => s.name(),
            LintRule::Function(f) => f.name(),
            LintRule::TraitImpl(t) => t.name(),
        }
    }

    fn applies_to_module(&self, namespace: &str) -> (r: bool)
        ensures
            r == lint_rule_applies_to_module(*self, namespace@),
    {
        match self {
            LintRule::Module(m) => m.applies_to_module(namespace),
            LintRule::Struct(s) => s.applies_to_module(namespace),
            LintRule::Function(f) => f.applies_to_module(namespace),
            LintRule::TraitImpl(t) => t.applies_to_module(namespace),
        }
    }

    fn applies_to_trait(&self, trait_path: &str) -> (r: bool)
        ensures
            r == lint_rule_applies_to_trait(*self, trait_path@),
    {
        match self {
            LintRule::Module(m) => m.applies_to_trait(trait_path),
            LintRule::Struct(s) => s.applies_to_trait(trait_path),
            LintRule::Function(f) => f.applies_to_trait(trait_path),
            LintRule::TraitImpl(t) => t.applies_to_trait(trait_path),
        }
    }
}

/// The configured lints, ready to run.
#[derive(Debug)]
pub struct ArchitectureLintCollection {
    pub lints: Vec<LintRule>,
}

impl ArchitectureLintCollection {
    /// A collection of `lints`.
    pub fn new(lints: Vec<LintRule>) -> (r: ArchitectureLintCollection)
        ensures
            r.lints == lints,
    {
        ArchitectureLintCollection { lints }
    }

    /// The lints.
    pub fn lints(&self) -> (r: &Vec<LintRule>)
        ensures
            r == &self.lints,
    {
        &self.lints
    }
}

/// The names of the lints, in order, that constrain module `ns`.
pub open spec fn module_lint_names(lints: Seq<LintRule>, ns: Seq<char>) -> Seq<Seq<char>>
    decreases lints.len(),
{
    if lints.len() == 0 {
        Seq::empty()
    } else {
        let earlier = module_lint_names(lints.drop_last(), ns);
        if lint_rule_applies_to_module(lints.last(), ns) {
            earlier.push(lint_rule_name(lints.last()))
        } else {
            earlier
        }
    }
}

/// The names of the lints, in order, that constrain trait `path`.
pub open spec fn trait_lint_names(lints: Seq<LintRule>, path: Seq<char>) -> Seq<Seq<char>>
    decreases lints.len(),
{
    if lints.len() == 0 {
        Seq::empty()
    } else {
        let earlier = trait_lint_names(lints.drop_last(), path);
        if lint_rule_applies_to_trait(lints.last(), path) {
            earlier.push(lint_rule_name(lints.last()))
        } else {
            earlier
        }
    }
}

/// The names in `s`, each at its first occurrence.
pub open spec fn first_occurrences(s: Seq<Seq<char>>) -> Seq<Seq<char>>
    decreases s.len(),
{
    if s.len() == 0 {
        Seq::empty()
    } else {
        let earlier = first_occurrences(s.drop_last());
        if earlier.contains(s.last()) {
            earlier
        } else {
            earlier.push(s.last())
        }
    }
}

/// The implementors of trait `name` among `impls` (trait, implementing type):
/// the types without their generic parameters, each once, in order.
pub open spec fn implementors_of(impls: Seq<NamePair>, name: Seq<char>) -> Seq<Seq<char>>
    decreases impls.len(),
{
    if impls.len() == 0 {
        Seq::empty()
    } else {
        let earlier = implementors_of(impls.drop_last(), name);
        let ty = before_generics(impls.last().1);
        if impls.last().0 == name && !earlier.contains(ty) {
            earlier.push(ty)
        } else {
            earlier
        }
    }
}

/// `n` is the name of a module lint of `lints` that selects module `ns`.
pub open spec fn name_of_module_lint(lints: Seq<LintRule>, ns: Seq<char>, n: Seq<char>) -> bool {
    exists|k: int|
        0 <= k < lints.len() && lints[k] is Module && lint_rule_applies_to_module(lints[k], ns) && n
            == lint_rule_name(#[trigger] lints[k])
}

/// `t` is, without generic parameters, a type that implements trait `name`
/// according to `impls`.
pub open spec fn implemented_by(impls: Seq<NamePair>, name: Seq<char>, t: Seq<char>) -> bool {
    exists|k: int| 0 <= k < impls.len() && (#[trigger] impls[k]).0 == name && t == before_generics(impls[k].1)
}

/// Which lints are listed for a module: exactly the module lints whose
/// matcher selects it (struct, function and trait implementation lints never
/// are), each by its name.
pub proof fn lemma_module_lint_names(lints: Seq<LintRule>, ns: Seq<char>)
    ensures
        forall|k: int|
            0 <= k < lints.len() && lint_rule_applies_to_module(#[trigger] lints[k], ns) ==> module_lint_names(
                lints,
                ns,
            ).contains(lint_rule_name(lints[k])),
        forall|j: int|
            0 <= j < module_lint_names(lints, ns).len() ==> name_of_module_lint(
                lints,
                ns,
                #[trigger] module_lint_names(lints, ns)[j],
            ),
        forall|r: LintRule| !(r is Module) ==> !#[trigger] lint_rule_applies_to_module(r, ns),
        forall|r: LintRule|
            #[trigger] lint_rule_applies_to_module(r, ns) ==> (r matches LintRule::Module(m) && module_match_holds(
                m.config.matches,
                ns,
            )),
    decreases lints.len(),
{
    if lints.len() > 0 {
        let init = lints.drop_last();
        lemma_module_lint_names(init, ns);
        let all = module_lint_names(lints, ns);
        let earlier = module_lint_names(init, ns);
        assert forall|k: int|
            0 <= k < lints.len() && lint_rule_applies_to_module(#[trigger] lints[k], ns) implies all.contains(
            lint_rule_name(lints[k]),
        ) by {
            if k < lints.len() - 1 {
                assert(init[k] == lints[k]);
                let j = choose|j: int| 0 <= j < earlier.len() && earlier[j] == lint_rule_name(init[k]);
                assert(all[j] == earlier[j]);
            } else {
                assert(all[all.len() - 1] == lint_rule_name(lints.last()));
            }
        }
        assert forall|j: int| 0 <= j < all.len() implies name_of_module_lint(lints, ns, #[trigger] all[j]) by {
            if j < earlier.len() {
                assert(all[j] == earlier[j]);
                assert(name_of_module_lint(init, ns, earlier[j]));
                let k = choose|k: int|
                    0 <= k < init.len() && init[k] is Module && lint_rule_applies_to_module(init[k], ns)
                        && earlier[j] == lint_rule_name(#[trigger] init[k]);
                assert(init[k] == lints[k]);
                assert(0 <= k < lints.len() && lints[k] is Module && lint_rule_applies_to_module(lints[k], ns)
                    && all[j] == lint_rule_name(lints[k]));
            } else {
                let k = lints.len() - 1;
                assert(lints[k] == lints.last());
                assert(lint_rule_applies_to_module(lints[k], ns));
                assert(lints[k] is Module);
                assert(all[j] == lint_rule_name(lints[k]));
            }
        }
    } else {
        assert(module_lint_names(lints, ns).len() == 0);
    }
}

/// Which lints are listed for a trait: struct lints whose matcher names a
/// trait pattern that matches it and trait implementation rules whose pattern
/// matches it; module and function lints never are.
pub proof fn lemma_trait_lint_kinds(r: LintRule, path: Seq<char>)
    ensures
        r is Module || r is Function ==> !lint_rule_applies_to_trait(r, path),
        r matches LintRule::Struct(s) ==> (lint_rule_applies_to_trait(r, path) <==> references_trait(s.matches, path)),
        r matches LintRule::TraitImpl(t) ==> (lint_rule_applies_to_trait(r, path) <==> regex_matches(
            t.configuration().source_name@,
            path,
        )),
{
}

/// The implementors listed for a trait: every type implementing it, without
/// its generic parameters, and nothing else, each once.
pub proof fn lemma_implementors_of(impls: Seq<NamePair>, name: Seq<char>)
    ensures
        forall|k: int|
            0 <= k < impls.len() && (#[trigger] impls[k]).0 == name ==> implementors_of(impls, name).contains(
                before_generics(impls[k].1),
            ),
        forall|j: int|
            0 <= j < implementors_of(impls, name).len() ==> implemented_by(
                impls,
                name,
                #[trigger] implementors_of(impls, name)[j],
            ),
        forall|i: int, j: int|
            0 <= i < j < implementors_of(impls, name).len() ==> #[trigger] implementors_of(impls, name)[i]
                != #[trigger] implementors_of(impls, name)[j],
    decreases impls.len(),
{
    if impls.len() > 0 {
        let init = impls.drop_last();
        lemma_implementors_of(init, name);
        let all = implementors_of(impls, name);
        let earlier = implementors_of(init, name);
        let ty = before_generics(impls.last().1);
        assert forall|k: int|
            0 <= k < impls.len() && (#[trigger] impls[k]).0 == name implies all.contains(before_generics(impls[k].1)) by {
            if k < impls.len() - 1 {
                assert(init[k] == impls[k]);
                let j = choose|j: int| 0 <= j < earlier.len() && earlier[j] == before_generics(init[k].1);
                assert(all[j] == earlier[j]);
            } else {
                assert(impls[k] == impls.last());
                if earlier.contains(ty) {
                    let j = choose|j: int| 0 <= j < earlier.len() && earlier[j] == ty;
                    assert(all[j] == earlier[j]);
                } else {
                    assert(all[all.len() - 1] == ty);
                }
            }
        }
        assert forall|j: int| 0 <= j < all.len() implies implemented_by(impls, name, #[trigger] all[j]) by {
            if j < earlier.len() {
                assert(all[j] == earlier[j]);
                assert(implemented_by(init, name, earlier[j]));
                let k = choose|k: int|
                    0 <= k < init.len() && (#[trigger] init[k]).0 == name && earlier[j] == before_generics(init[k].1);
                assert(init[k] == impls[k]);
                assert(0 <= k < impls.len() && impls[k].0 == name && all[j] == before_generics(impls[k].1));
            } else {
                let k = impls.len() - 1;
                assert(impls[k] == impls.last());
                assert(impls[k].0 == name && all[j] == before_generics(impls[k].1));
            }
        }
        assert forall|i: int, j: int| 0 <= i < j < all.len() implies #[trigger] all[i] != #[trigger] all[j] by {
            if j < earlier.len() {
                assert(all[i] == earlier[i] && all[j] == earlier[j]);
            } else {
                assert(all[i] == earlier[i]);
                assert(!earlier.contains(ty));
            }
        }
    }
}

/// The module entry for a (crate, path) pair.
pub open spec fn module_entry(lints: Seq<LintRule>, p: NamePair) -> ModuleInfoView {
    let name = p.0 + "::"@ + p.1;
    ModuleInfoView { name, applicable_lints: module_lint_names(lints, name) }
}

/// The trait entry for trait `name`.
pub open spec fn trait_entry(lints: Seq<LintRule>, impls: Seq<NamePair>, name: Seq<char>) -> TraitInfoView {
    TraitInfoView {
        name,
        implementors: implementors_of(impls, name),
        applicable_lints: trait_lint_names(lints, name),
    }
}

/// The string views of a list of strings.
pub open spec fn string_views(v: Seq<String>) -> Seq<Seq<char>> {
    v.map_values(|s: String| s@)
}

/// Runs the lints in one of its modes.
#[derive(Debug)]
pub struct ArchitectureLintRunner {
    pub mode: Mode,
    pub lint_collection: ArchitectureLintCollection,
    /// The arguments of the run, tracked so that results follow them.
    pub cli_args: String,
    /// The cargo arguments passed through.
    pub cargo_args: Vec<String>,
    /// What the run reports.
    pub result_text: String,
}

impl ArchitectureLintRunner {
    /// A runner in `mode` for `lint_collection`, with no cargo arguments and
    /// nothing reported.
    pub fn new(mode: Mode, cli_args: String, lint_collection: ArchitectureLintCollection) -> (r: Self)
        ensures
            r.mode == mode,
            r.cli_args == cli_args,
            r.lint_collection == lint_collection,
            r.cargo_args@.len() == 0,
            r.result_text@.len() == 0,
    {
        ArchitectureLintRunner { mode, lint_collection, cli_args, cargo_args: Vec::new(), result_text: String::new() }
    }

    /// Sets the cargo arguments passed through.
    pub fn set_cargo_args(&mut self, args: Vec<String>)
        ensures
            final(self).cargo_args == args,
            final(self).mode == old(self).mode,
            final(self).cli_args == old(self).cli_args,
            final(self).lint_collection == old(self).lint_collection,
            final(self).result_text == old(self).result_text,
    {
        self.cargo_args = args;
    }

    /// What the run reports.
    pub fn lint_results_text(&self) -> (r: &String)
        ensures
            r == &self.result_text,
    {
        &self.result_text
    }

    /// Whether the mode calls for a description of the crate (every mode but
    /// checking, where the lints do the work).
    pub fn builds_project_context(&self) -> (r: bool)
        ensures
            r == (self.mode != Mode::Check),
    {
        match self.mode {
            Mode::Check => false,
            _ => true,
        }
    }

    /// Records that the description of the crate was written: when generating
    /// a configuration, the report says so, naming the crate.
    pub fn record_context_written(&mut self, context: &ProjectContext)
        ensures
            final(self).result_text@ == (if old(self).mode == Mode::GenerateConfig {
                "Project context successfully generated for crate "@ + context.module_root@
            } else {
                old(self).result_text@
            }),
            final(self).mode == old(self).mode,
            final(self).cli_args == old(self).cli_args,
            final(self).cargo_args == old(self).cargo_args,
            final(self).lint_collection == old(self).lint_collection,
    {
        if self.mode == Mode::GenerateConfig {
            let mut text = String::from_str("Project context successfully generated for crate ");
            text.append(context.module_root.as_str());
            self.result_text = text;
        }
    }

    /// The description of a crate: `modules` lists (crate name, path) of every
    /// module below the crate root, `trait_names` the full canonical names of
    /// its traits, `trait_impls` (full canonical trait name, implementing type)
    /// for each of its trait impls. The modules come as a set, in order of crate
    /// name then path, each with the lints that constrain it; the crate name is
    /// that of the first module ("unknown_crate" without modules). The traits
    /// come once each, in order of first appearance, each with its implementors
    /// among the impls and the lints that constrain it.
    pub fn build_project_context(
        &self,
        modules: &Vec<(String, String)>,
        trait_names: &Vec<String>,
        trait_impls: &Vec<(String, String)>,
    ) -> (r: ProjectContext)
        ensures
            exists|set: Seq<NamePair>|
                strictly_sorted(set) && set.to_set() == pair_views(modules@).to_set() && module_views(r.modules@)
                    == set.map_values(|p: NamePair| module_entry(self.lint_collection.lints@, p)) && r.module_root@ == (
                if set.len() > 0 {
                    set[0].0
                } else {
                    "unknown_crate"@
                }),
            trait_views(r.traits@) == first_occurrences(string_views(trait_names@)).map_values(
                |n: Seq<char>| trait_entry(self.lint_collection.lints@, pair_views(trait_impls@), n),
            ),
            r.base_dir@ == PUP_DIR@,
    {
        let ghost lints = self.lint_collection.lints@;
        let mut set: Vec<(String, String)> = Vec::new();
        let mut i: usize = 0;
        while i < modules.len()
            invariant
                i <= modules@.len(),
                strictly_sorted(pair_views(set@)),
                pair_views(set@).to_set() == pair_views(modules@.take(i as int)).to_set(),
            decreases modules.len() - i,
        {
            let pair = (modules[i].0.clone(), modules[i].1.clone());
            insert_pair(&mut set, pair);
            assert(pair_views(modules@.take(i + 1)) =~= pair_views(modules@.take(i as int)).push(
                (modules@[i as int].0@, modules@[i as int].1@),
            ));
            proof {
                pair_views(modules@.take(i as int)).lemma_push_to_set_commute(
                    (modules@[i as int].0@, modules@[i as int].1@),
                );
            }
            i = i + 1;
        }
        assert(modules@.take(modules@.len() as int) =~= modules@);
        let ghost sv = pair_views(set@);
        let module_root = if set.len() > 0 {
            set[0].0.clone()
        } else {
            String::from_str("unknown_crate")
        };
        let mut infos: Vec<ModuleInfo> = Vec::new();
        let mut k: usize = 0;
        while k < set.len()
            invariant
                k <= set@.len(),
                sv == pair_views(set@),
                lints == self.lint_collection.lints@,
                module_views(infos@) == sv.take(k as int).map_values(|p: NamePair| module_entry(lints, p)),
            decreases set.len() - k,
        {
            let mut name = String::from_str(set[k].0.as_str());
            name.append("::");
            name.append(set[k].1.as_str());
            let applicable_lints = self.module_lints(name.as_str());
            let info = ModuleInfo { name, applicable_lints };
            assert(info@ == module_entry(lints, sv[k as int]));
            let ghost before = infos@;
            infos.push(info);
            assert(module_views(infos@) =~= module_views(before).push(info@));
            assert(sv.take(k + 1) =~= sv.take(k as int).push(sv[k as int]));
            assert(sv.take(k + 1).map_values(|p: NamePair| module_entry(lints, p)) =~= sv.take(k as int).map_values(
                |p: NamePair| module_entry(lints, p),
            ).push(module_entry(lints, sv[k as int])));
            k = k + 1;
        }
        assert(sv.take(sv.len() as int) =~= sv);
        let mut names: Vec<String> = Vec::new();
        let mut j: usize = 0;
        while j < trait_names.len()
            invariant
                j <= trait_names@.len(),
                string_views(names@) == first_occurrences(string_views(trait_names@.take(j as int))),
            decreases trait_names.len() - j,
        {
            assert(string_views(trait_names@.take(j + 1)) =~= string_views(trait_names@.take(j as int)).push(
                trait_names@[j as int]@,
            ));
            assert(string_views(trait_names@.take(j + 1)).drop_last() =~= string_views(trait_names@.take(j as int)));
            if !contains_string(&names, trait_names[j].as_str()) {
                let ghost before = names@;
                names.push(trait_names[j].clone());
                assert(string_views(names@) =~= string_views(before).push(trait_names@[j as int]@));
            } else {
                proof {
                    let w = choose|w: int| 0 <= w < names@.len() && #[trigger] names@[w]@ == trait_names@[j as int]@;
                    assert(string_views(names@)[w] == trait_names@[j as int]@);
                }
            }
            j = j + 1;
        }
        assert(trait_names@.take(trait_names@.len() as int) =~= trait_names@);
        let ghost nv = string_views(names@);
        let ghost iv = pair_views(trait_impls@);
        let mut traits: Vec<TraitInfo> = Vec::new();
        let mut t: usize = 0;
        while t < names.len()
            invariant
                t <= names@.len(),
                nv == string_views(names@),
                iv == pair_views(trait_impls@),
                lints == self.lint_collection.lints@,
                trait_views(traits@) == nv.take(t as int).map_values(|n: Seq<char>| trait_entry(lints, iv, n)),
            decreases names.len() - t,
        {
            let name = &names[t];
            let implementors = implementors_of_trait(trait_impls, name.as_str());
            let applicable_lints = self.trait_lints(name.as_str());
            let info = TraitInfo { name: name.clone(), implementors, applicable_lints };
            assert(info@ == trait_entry(lints, iv, nv[t as int]));
            let ghost before = traits@;
            traits.push(info);
            assert(trait_views(traits@) =~= trait_views(before).push(info@));
            assert(nv.take(t + 1) =~= nv.take(t as int).push(nv[t as int]));
            assert(nv.take(t + 1).map_values(|n: Seq<char>| trait_entry(lints, iv, n)) =~= nv.take(t as int).map_values(
                |n: Seq<char>| trait_entry(lints, iv, n),
            ).push(trait_entry(lints, iv, nv[t as int])));
            t = t + 1;
        }
        assert(nv.take(nv.len() as int) =~= nv);
        let mut context = ProjectContext::new();
        context.module_root = module_root;
        context.modules = infos;
        context.traits = traits;
        context
    }

    /// The names of the lints that constrain module `ns`.
    fn module_lints(&self, ns: &str) -> (r: Vec<String>)
        ensures
            string_views(r@) == module_lint_names(self.lint_collection.lints@, ns@),
    {
        let lints = &self.lint_collection.lints;
        let mut out: Vec<String> = Vec::new();
        let mut i: usize = 0;
        while i < lints.len()
            invariant
                i <= lints@.len(),
                string_views(out@) == module_lint_names(lints@.take(i as int), ns@),
            decreases lints.len() - i,
        {
            assert(lints@.take(i + 1).drop_last() =~= lints@.take(i as int));
            if lints[i].applies_to_module(ns) {
                let ghost before = out@;
                out.push(lints[i].name());
                assert(string_views(out@) =~= string_views(before).push(lint_rule_name(lints@[i as int])));
            }
            i = i + 1;
        }
        assert(lints@.take(lints@.len() as int) =~= lints@);
        out
    }

    /// The names of the lints that constrain trait `path`.
    fn trait_lints(&self, path: &str) -> (r: Vec<String>)
        ensures
            string_views(r@) == trait_lint_names(self.lint_collection.lints@, path@),
    {
        let lints = &self.lint_collection.lints;
        let mut out: Vec<String> = Vec::new();
        let mut i: usize = 0;
        while i < lints.len()
            invariant
                i <= lints@.len(),
                string_views(out@) == trait_lint_names(lints@.take(i as int), path@),
            decreases lints.len() - i,
        {
            assert(lints@.take(i + 1).drop_last() =~= lints@.take(i as int));
            if lints[i].applies_to_trait(path) {
                let ghost before = out@;
                out.push(lints[i].name());
                assert(string_views(out@) =~= string_views(before).push(lint_rule_name(lints@[i as int])));
            }
            i = i + 1;
        }
        assert(lints@.take(lints@.len() as int) =~= lints@);
        out
    }
}

/// The implementors of trait `name` among `impls` (see `implementors_of`).
fn implementors_of_trait(impls: &Vec<(String, String)>, name: &str) -> (r: Vec<String>)
    ensures
        string_views(r@) == implementors_of(pair_views(impls@), name@),
{
    let ghost iv = pair_views(impls@);
    let mut out: Vec<String> = Vec::new();
    let mut i: usize = 0;
    while i < impls.len()
        invariant
            i <= impls@.len(),
            iv == pair_views(impls@),
            string_views(out@) == implementors_of(iv.take(i as int), name@),
        decreases impls.len() - i,
    {
        assert(iv.take(i + 1).drop_last() =~= iv.take(i as int));
        assert(iv.take(i + 1).last() == iv[i as int]);
        if str_eq(impls[i].0.as_str(), name) {
            let ty = get_canonical_type_name(impls[i].1.as_str());
            if !contains_string(&out, ty.as_str()) {
                let ghost before = out@;
                out.push(ty);
                assert(string_views(out@) =~= string_views(before).push(before_generics(iv[i as int].1)));
                proof {
                    if string_views(before).contains(before_generics(iv[i as int].1)) {
                        let w = choose|w: int| 0 <= w < before.len() && string_views(before)[w] == before_generics(iv[i as int].1);
                        assert(before[w]@ == before_generics(iv[i as int].1));
                    }
                }
            } else {
                proof {
                    let w = choose|w: int| 0 <= w < out@.len() && #[trigger] out@[w]@ == ty@;
                    assert(string_views(out@)[w] == ty@);
                }
            }
        }
        i = i + 1;
    }
    assert(iv.take(iv.len() as int) =~= iv);
    out
}

} // verus!
