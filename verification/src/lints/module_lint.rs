//! The module lint: which items a configured module lint inspects, and what it
//! reports for the rules they break.
use vstd::prelude::*;
use vstd::string::*;
use crate::config::lint_builder::{
    ConfiguredLint,
    copy_module_match,
    copy_module_rules,
    opt_strings,
    same_module_rules,
};
use crate::config::module_lint::{ModuleLint as ConfigModuleLint, ModuleMatch, ModuleRule};
use crate::config::severity::Severity;
use crate::lints::finding::{Finding, FindingView, LintId, Site, finding_views};
use crate::lints::rule::ArchitectureLintRule;
use crate::pattern::{matches_or_false, pattern_matches};
use crate::lints::struct_lint::{has_pattern_chars, is_pattern_char, looks_like_pattern};
use crate::text::{contains_string, debug_list, debug_strings, join, join_strings, seq_ends_with, str_ends_with, str_eq};

verus! {

/// The kind of an item, as far as module rules tell kinds apart.
#[derive(Debug, Clone, Copy, PartialEq, Eq, Structural)]
pub enum ItemKindFacts {
    Mod,
    Use,
    Enum,
    Struct,
    Trait,
    /// An `impl` block; `of_trait` when it implements a trait.
    Impl { of_trait: bool },
    Fn,
    Static,
    Const,
    Union,
    Other,
}

/// An item inside an inspected module.
#[derive(Debug)]
pub struct NestedItem {
    pub kind: ItemKindFacts,
    /// The item's name, or a description of where it is for unnamed items.
    pub name: String,
    /// The file the item is written in, when it is a real file.
    pub file_name: Option<String>,
    /// A `use` with a wildcard.
    pub is_glob_use: bool,
}

/// What the module lint needs to know of an item.
#[derive(Debug)]
pub struct ModuleItemFacts {
    /// The full path of the module that holds the item.
    pub parent_path: String,
    pub kind: ItemKindFacts,
    /// The item's name.
    pub name: String,
    /// For a module: its own full path.
    pub full_path: String,
    /// For a module: the items in it, in order.
    pub nested: Vec<NestedItem>,
    /// For a `use`: the segments of the imported path.
    pub use_path: Vec<String>,
    /// For a `use`: whether it imports with a wildcard.
    pub is_glob_use: bool,
}

/// The views of a list of strings.
pub open spec fn string_views(v: Seq<String>) -> Seq<Seq<char>> {
    v.map_values(|s: String| s@)
}

/// Whether `path` satisfies module matcher `m`: a pattern without regular
/// expression characters is an exact module path; otherwise it is a regular
/// expression, and an invalid one matches nothing.
pub open spec fn module_match_holds(m: ModuleMatch, path: Seq<char>) -> bool
    decreases m,
{
    match m {
        ModuleMatch::Module(p) => if looks_like_pattern(p@) {
            matches_or_false(p@, path)
        } else {
            path == p@
        },
        ModuleMatch::AndMatches(l, r) => module_match_holds(*l, path) && module_match_holds(*r, path),
        ModuleMatch::OrMatches(l, r) => module_match_holds(*l, path) || module_match_holds(*r, path),
        ModuleMatch::NotMatch(i) => !module_match_holds(*i, path),
    }
}

/// A module path without regular expression characters selects exactly that
/// module: no module nested in it, around it or with a longer or shorter name;
/// a pattern with such characters selects what the regular expression matches.
/// `and`, `or` and `not` combine selections as their names say.
pub proof fn lemma_module_matcher(p: String, path: Seq<char>, pre: Seq<char>, post: Seq<char>, l: ModuleMatch, r: ModuleMatch)
    ensures
        (forall|i: int| 0 <= i < p@.len() ==> !is_pattern_char(#[trigger] p@[i])) ==> (module_match_holds(
            ModuleMatch::Module(p),
            path,
        ) <==> path == p@),
        (forall|i: int| 0 <= i < p@.len() ==> !is_pattern_char(#[trigger] p@[i])) && (pre.len() > 0 || post.len()
            > 0) ==> !module_match_holds(ModuleMatch::Module(p), pre + p@ + post),
        looks_like_pattern(p@) ==> (module_match_holds(ModuleMatch::Module(p), path) <==> matches_or_false(p@, path)),
        module_match_holds(ModuleMatch::AndMatches(Box::new(l), Box::new(r)), path) <==> module_match_holds(l, path)
            && module_match_holds(r, path),
        module_match_holds(ModuleMatch::OrMatches(Box::new(l), Box::new(r)), path) <==> module_match_holds(l, path)
            || module_match_holds(r, path),
        module_match_holds(ModuleMatch::NotMatch(Box::new(l)), path) <==> !module_match_holds(l, path),
{
    assert((pre + p@ + post).len() == pre.len() + p@.len() + post.len());
}

/// Whether `path` satisfies `module_match`.
pub fn evaluate_module_match(module_match: &ModuleMatch, path: &str) -> (r: bool)
    ensures
        r == module_match_holds(*module_match, path@),
    decreases module_match,
{
    match module_match {
        ModuleMatch::Module(pattern) => if has_pattern_chars(pattern.as_str()) {
            pattern_matches(pattern.as_str(), path)
        } else {
            str_eq(path, pattern.as_str())
        },
        ModuleMatch::AndMatches(left, right) => evaluate_module_match(left, path)
            && evaluate_module_match(right, path),
        ModuleMatch::OrMatches(left, right) => evaluate_module_match(left, path)
            || evaluate_module_match(right, path),
        ModuleMatch::NotMatch(inner) => !evaluate_module_match(inner, path),
    }
}

/// Whether an item of this kind breaks a rule that its module be empty:
/// definitions do, re-exports, module declarations and trait impls do not.
pub open spec fn disallowed_in_empty(k: ItemKindFacts) -> bool {
    match k {
        ItemKindFacts::Static | ItemKindFacts::Struct | ItemKindFacts::Union | ItemKindFacts::Trait
        | ItemKindFacts::Fn | ItemKindFacts::Const | ItemKindFacts::Enum => true,
        ItemKindFacts::Impl { of_trait } => !of_trait,
        _ => false,
    }
}

/// Whether an item of this kind breaks a rule that its module be empty.
pub fn is_disallowed_in_empty_module(k: ItemKindFacts) -> (r: bool)
    ensures
        r == disallowed_in_empty(k),
{
    match k {
        ItemKindFacts::Static | ItemKindFacts::Struct | ItemKindFacts::Union | ItemKindFacts::Trait
        | ItemKindFacts::Fn | ItemKindFacts::Const | ItemKindFacts::Enum => true,
        ItemKindFacts::Impl { of_trait } => !of_trait,
        _ => false,
    }
}

/// Whether the item is written in a `mod.rs` file.
pub open spec fn in_mod_rs(n: NestedItem) -> bool {
    n.file_name matches Some(f) && seq_ends_with(f@, "/mod.rs"@)
}

/// Whether the item is written in a `mod.rs` file.
pub fn is_mod_rs_file(n: &NestedItem) -> (r: bool)
    ensures
        r == in_mod_rs(*n),
{
    match &n.file_name {
        Some(f) => str_ends_with(f.as_str(), "/mod.rs"),
        None => false,
    }
}

/// The word for an item kind in reports about denied items; empty for kinds
/// that cannot be denied.
pub open spec fn item_type_word(k: ItemKindFacts) -> Seq<char> {
    match k {
        ItemKindFacts::Enum => "enum"@,
        ItemKindFacts::Struct => "struct"@,
        ItemKindFacts::Trait => "trait"@,
        ItemKindFacts::Impl { .. } => "impl"@,
        ItemKindFacts::Fn => "function"@,
        ItemKindFacts::Mod => "module"@,
        ItemKindFacts::Static => "static"@,
        ItemKindFacts::Const => "const"@,
        ItemKindFacts::Union => "union"@,
        _ => ""@,
    }
}

/// The word for an item kind in reports about denied items.
pub fn item_type_name(k: ItemKindFacts) -> (r: &'static str)
    ensures
        r@ == item_type_word(k),
{
    match k {
        ItemKindFacts::Enum => "enum",
        ItemKindFacts::Struct => "struct",
        ItemKindFacts::Trait => "trait",
        ItemKindFacts::Impl { .. } => "impl",
        ItemKindFacts::Fn => "function",
        ItemKindFacts::Mod => "module",
        ItemKindFacts::Static => "static",
        ItemKindFacts::Const => "const",
        ItemKindFacts::Union => "union",
        _ => "",
    }
}

/// Whether one of `patterns` matches `text`; invalid patterns match nothing.
pub open spec fn any_pattern_matches(patterns: Seq<String>, text: Seq<char>) -> bool {
    exists|i: int| 0 <= i < patterns.len() && matches_or_false(#[trigger] patterns[i]@, text)
}

fn any_matches(patterns: &Vec<String>, text: &str) -> (r: bool)
    ensures
        r == any_pattern_matches(patterns@, text@),
{
    let mut i: usize = 0;
    while i < patterns.len()
        invariant
            i <= patterns@.len(),
            forall|k: int| 0 <= k < i ==> !matches_or_false(#[trigger] patterns@[k]@, text@),
        decreases patterns.len() - i,
    {
        if pattern_matches(patterns[i].as_str(), text) {
            return true;
        }
        i = i + 1;
    }
    false
}

/// A finding with the given parts.
pub open spec fn finding_at(lint: LintId, sev: Severity, site: Site, message: Seq<char>, help: Seq<char>) -> FindingView {
    FindingView { lint, severity: sev, site, message, help }
}

/// The reports for the nested items that break an emptiness rule, in order:
/// with `mod_rs_only`, only those written in a `mod.rs` file.
pub open spec fn emptiness_findings(nested: Seq<NestedItem>, sev: Severity, mod_rs_only: bool) -> Seq<FindingView>
    decreases nested.len(),
{
    if nested.len() == 0 {
        Seq::empty()
    } else {
        let k = nested.len() - 1;
        let n = nested[k];
        let earlier = emptiness_findings(nested.drop_last(), sev, mod_rs_only);
        if disallowed_in_empty(n.kind) && (!mod_rs_only || in_mod_rs(n)) {
            earlier.push(
                if mod_rs_only {
                    finding_at(
                        LintId::ModuleMustHaveEmptyModFile,
                        sev,
                        Site::Nested(k as usize),
                        "Item '"@ + n.name@ + "' disallowed in mod.rs due to empty-mod-file policy"@,
                        "Remove this item from the mod.rs file or move it to a submodule"@,
                    )
                } else {
                    finding_at(
                        LintId::ModuleMustBeEmpty,
                        sev,
                        Site::Nested(k as usize),
                        "Item '"@ + n.name@ + "' not allowed in empty module"@,
                        "Remove this item from the module, which must be empty"@,
                    )
                },
            )
        } else {
            earlier
        }
    }
}

/// The report an emptiness rule makes for the nested item at index `i`.
pub open spec fn emptiness_report(nested: Seq<NestedItem>, i: int, sev: Severity, mod_rs_only: bool) -> FindingView {
    if mod_rs_only {
        finding_at(
            LintId::ModuleMustHaveEmptyModFile,
            sev,
            Site::Nested(i as usize),
            "Item '"@ + nested[i].name@ + "' disallowed in mod.rs due to empty-mod-file policy"@,
            "Remove this item from the mod.rs file or move it to a submodule"@,
        )
    } else {
        finding_at(
            LintId::ModuleMustBeEmpty,
            sev,
            Site::Nested(i as usize),
            "Item '"@ + nested[i].name@ + "' not allowed in empty module"@,
            "Remove this item from the module, which must be empty"@,
        )
    }
}

proof fn lemma_emptiness_sites(nested: Seq<NestedItem>, sev: Severity, mod_rs_only: bool)
    requires
        nested.len() <= usize::MAX,
    ensures
        forall|j: int|
            0 <= j < emptiness_findings(nested, sev, mod_rs_only).len() ==> exists|m: int|
                0 <= m < nested.len() && (#[trigger] emptiness_findings(nested, sev, mod_rs_only)[j]).site
                    == Site::Nested(m as usize) && emptiness_findings(nested, sev, mod_rs_only)[j]
                    == emptiness_report(nested, m, sev, mod_rs_only),
    decreases nested.len(),
{
    if nested.len() > 0 {
        lemma_emptiness_sites(nested.drop_last(), sev, mod_rs_only);
        let k = nested.len() - 1;
        let earlier = emptiness_findings(nested.drop_last(), sev, mod_rs_only);
        let all = emptiness_findings(nested, sev, mod_rs_only);
        assert forall|j: int| 0 <= j < all.len() implies exists|m: int|
            0 <= m < nested.len() && (#[trigger] all[j]).site == Site::Nested(m as usize) && all[j]
                == emptiness_report(nested, m, sev, mod_rs_only) by {
            if j < earlier.len() {
                assert(all[j] == earlier[j]);
                let m = choose|m: int|
                    0 <= m < nested.drop_last().len() && (#[trigger] earlier[j]).site == Site::Nested(m as usize)
                        && earlier[j] == emptiness_report(nested.drop_last(), m, sev, mod_rs_only);
                assert(nested.drop_last()[m] == nested[m]);
                assert(emptiness_report(nested.drop_last(), m, sev, mod_rs_only) == emptiness_report(
                    nested,
                    m,
                    sev,
                    mod_rs_only,
                ));
                assert(all[j].site == Site::Nested(m as usize) && all[j] == emptiness_report(nested, m, sev, mod_rs_only));
            } else {
                assert(all[j] == emptiness_report(nested, k, sev, mod_rs_only));
                assert(all[j].site == Site::Nested(k as usize));
            }
        }
    }
}

/// Under a rule that a module (or its `mod.rs`) be empty, every definition
/// nested in it (a static, struct, union, trait, function, constant, enum or
/// inherent `impl`; for the `mod.rs` rule, one written in a `mod.rs` file) is
/// reported, by its name; a module declaration, an import, a trait `impl` or
/// any other item is never reported.
pub proof fn lemma_emptiness_reports_definitions(nested: Seq<NestedItem>, sev: Severity, mod_rs_only: bool, i: int)
    requires
        0 <= i < nested.len(),
        nested.len() <= usize::MAX,
    ensures
        ({
            let k = nested[i].kind;
            k == ItemKindFacts::Static || k == ItemKindFacts::Struct || k == ItemKindFacts::Union || k
                == ItemKindFacts::Trait || k == ItemKindFacts::Fn || k == ItemKindFacts::Const || k
                == ItemKindFacts::Enum || k == (ItemKindFacts::Impl { of_trait: false })
        }) && (!mod_rs_only || in_mod_rs(nested[i])) ==> emptiness_findings(nested, sev, mod_rs_only).contains(
            emptiness_report(nested, i, sev, mod_rs_only),
        ),
        ({
            let k = nested[i].kind;
            k == ItemKindFacts::Mod || k == ItemKindFacts::Use || k == (ItemKindFacts::Impl { of_trait: true }) || k
                == ItemKindFacts::Other
        }) ==> forall|j: int|
            0 <= j < emptiness_findings(nested, sev, mod_rs_only).len() ==> (#[trigger] emptiness_findings(
                nested,
                sev,
                mod_rs_only,
            )[j]).site != Site::Nested(i as usize),
    decreases nested.len(),
{
    let k = nested.len() - 1;
    let earlier = emptiness_findings(nested.drop_last(), sev, mod_rs_only);
    let all = emptiness_findings(nested, sev, mod_rs_only);
    lemma_emptiness_sites(nested.drop_last(), sev, mod_rs_only);
    if i < k {
        lemma_emptiness_reports_definitions(nested.drop_last(), sev, mod_rs_only, i);
        assert(nested.drop_last()[i] == nested[i]);
        assert(emptiness_report(nested.drop_last(), i, sev, mod_rs_only) == emptiness_report(nested, i, sev, mod_rs_only));
        assert(earlier.is_prefix_of(all));
        if earlier.contains(emptiness_report(nested, i, sev, mod_rs_only)) {
            let j = choose|j: int| 0 <= j < earlier.len() && earlier[j] == emptiness_report(nested, i, sev, mod_rs_only);
            assert(all[j] == earlier[j]);
        }
        if all.len() > earlier.len() {
            assert(all.last().site == Site::Nested(k as usize));
        }
    } else {
        if all.len() > earlier.len() {
            assert(all.last() == emptiness_report(nested, i, sev, mod_rs_only));
            assert(all[all.len() - 1] == all.last());
        }
        assert forall|j: int| 0 <= j < earlier.len() implies (#[trigger] earlier[j]).site != Site::Nested(i as usize) by {
            let m = choose|m: int|
                0 <= m < nested.drop_last().len() && earlier[j].site == Site::Nested(m as usize) && earlier[j]
                    == emptiness_report(nested.drop_last(), m, sev, mod_rs_only);
        }
    }
}

proof fn lemma_rule_findings_within(rules: Seq<ModuleRule>, f: ModuleItemFacts, j: int, x: FindingView)
    requires
        0 <= j < rules.len(),
        module_rule_findings(rules[j], f).contains(x),
    ensures
        module_findings(rules, f).contains(x),
    decreases rules.len(),
{
    let prev = module_findings(rules.drop_last(), f);
    let last = module_rule_findings(rules.last(), f);
    if j < rules.len() - 1 {
        assert(rules.drop_last()[j] == rules[j]);
        lemma_rule_findings_within(rules.drop_last(), f, j, x);
        let t = choose|t: int| 0 <= t < prev.len() && prev[t] == x;
        assert((prev + last)[t] == x);
    } else {
        let t = choose|t: int| 0 <= t < last.len() && last[t] == x;
        assert((prev + last)[prev.len() + t] == x);
    }
}

/// A module lint that has a rule that the module be empty (or have an empty
/// `mod.rs`) reports, for an inspected module, each definition nested in it
/// (for the `mod.rs` rule, each one written in a `mod.rs` file): a static,
/// struct, union, trait, function, constant, enum or inherent `impl`.
pub proof fn lemma_empty_module_rule_reports(
    rules: Seq<ModuleRule>,
    r: int,
    f: ModuleItemFacts,
    sev: Severity,
    mod_rs_only: bool,
    i: int,
)
    requires
        0 <= r < rules.len(),
        rules[r] == (if mod_rs_only {
            ModuleRule::MustHaveEmptyModFile(sev)
        } else {
            ModuleRule::MustBeEmpty(sev)
        }),
        f.kind == ItemKindFacts::Mod,
        0 <= i < f.nested@.len(),
        f.nested@.len() <= usize::MAX,
        ({
            let k = f.nested@[i].kind;
            k == ItemKindFacts::Static || k == ItemKindFacts::Struct || k == ItemKindFacts::Union || k
                == ItemKindFacts::Trait || k == ItemKindFacts::Fn || k == ItemKindFacts::Const || k
                == ItemKindFacts::Enum || k == (ItemKindFacts::Impl { of_trait: false })
        }),
        !mod_rs_only || in_mod_rs(f.nested@[i]),
    ensures
        module_findings(rules, f).contains(emptiness_report(f.nested@, i, sev, mod_rs_only)),
{
    lemma_emptiness_reports_definitions(f.nested@, sev, mod_rs_only, i);
    assert(module_rule_findings(rules[r], f) == emptiness_findings(f.nested@, sev, mod_rs_only));
    lemma_rule_findings_within(rules, f, r, emptiness_report(f.nested@, i, sev, mod_rs_only));
}

/// What the leaf module rules report for one item. Rules about a module's name
/// and contents concern modules only: for any other item they report nothing.
/// For a module, `must be named` reports once exactly when the name does not
/// match, `must not be named` once exactly when it does, and `must not be
/// empty` once exactly when nothing is nested in it. A wildcard `use` breaks
/// the no-wildcard rule by itself; in a module, each nested wildcard `use` is
/// reported at its place and no other nested item is. An import is reported
/// when no allowed pattern matches it and when a denied one does, in that
/// order.
pub proof fn lemma_module_leaf_rules(f: ModuleItemFacts, p: String, sev: Severity, i: int)
    requires
        f.nested@.len() <= usize::MAX,
    ensures
        f.kind != ItemKindFacts::Mod ==> leaf_rule_findings(ModuleRule::MustBeNamed(p, sev), f).len() == 0
            && leaf_rule_findings(ModuleRule::MustNotBeNamed(p, sev), f).len() == 0 && leaf_rule_findings(
            ModuleRule::MustNotBeEmpty(sev),
            f,
        ).len() == 0 && leaf_rule_findings(ModuleRule::MustBeEmpty(sev), f).len() == 0 && leaf_rule_findings(
            ModuleRule::MustHaveEmptyModFile(sev),
            f,
        ).len() == 0,
        f.kind == ItemKindFacts::Mod ==> leaf_rule_findings(ModuleRule::MustBeNamed(p, sev), f).len() == (if matches_or_false(
            p@,
            f.name@,
        ) {
            0int
        } else {
            1int
        }) && leaf_rule_findings(ModuleRule::MustNotBeNamed(p, sev), f).len() == (if matches_or_false(
            p@,
            f.name@,
        ) {
            1int
        } else {
            0int
        }) && leaf_rule_findings(ModuleRule::MustNotBeEmpty(sev), f).len() == (if f.nested@.len() == 0 {
            1int
        } else {
            0int
        }),
        f.kind == ItemKindFacts::Use && f.is_glob_use ==> leaf_rule_findings(ModuleRule::NoWildcardImports(sev), f)
            == seq![wildcard_finding(sev, Site::Item)],
        f.kind == ItemKindFacts::Mod && 0 <= i < f.nested@.len() ==> (f.nested@[i].is_glob_use <==> leaf_rule_findings(
            ModuleRule::NoWildcardImports(sev),
            f,
        ).contains(wildcard_finding(sev, Site::Nested(i as usize)))),
{
    if f.kind == ItemKindFacts::Mod && 0 <= i < f.nested@.len() {
        lemma_nested_wildcards(f.nested@, sev, i);
    }
}

proof fn lemma_nested_wildcards(nested: Seq<NestedItem>, sev: Severity, i: int)
    requires
        0 <= i < nested.len(),
        nested.len() <= usize::MAX,
    ensures
        nested[i].is_glob_use <==> nested_wildcard_findings(nested, sev).contains(
            wildcard_finding(sev, Site::Nested(i as usize)),
        ),
        forall|j: int|
            0 <= j < nested_wildcard_findings(nested, sev).len() ==> ((#[trigger] nested_wildcard_findings(
                nested,
                sev,
            )[j]).site matches Site::Nested(m) && m < nested.len() && nested_wildcard_findings(nested, sev)[j]
                == wildcard_finding(sev, Site::Nested(m))),
    decreases nested.len(),
{
    let k = nested.len() - 1;
    let earlier = nested_wildcard_findings(nested.drop_last(), sev);
    let all = nested_wildcard_findings(nested, sev);
    let target = wildcard_finding(sev, Site::Nested(i as usize));
    if k > 0 {
        let ii = if i < k {
            i
        } else {
            0
        };
        lemma_nested_wildcards(nested.drop_last(), sev, ii);
    }
    assert forall|j: int| 0 <= j < all.len() implies ((#[trigger] all[j]).site matches Site::Nested(m) && m
        < nested.len() && all[j] == wildcard_finding(sev, Site::Nested(m))) by {
        if j < earlier.len() {
            assert(all[j] == earlier[j]);
        } else {
            assert(all[j] == wildcard_finding(sev, Site::Nested(k as usize)));
        }
    }
    if i < k {
        assert(nested.drop_last()[i] == nested[i]);
        if earlier.contains(target) {
            let j = choose|j: int| 0 <= j < earlier.len() && earlier[j] == target;
            assert(all[j] == target);
        }
        if all.contains(target) {
            let j = choose|j: int| 0 <= j < all.len() && all[j] == target;
            if j < earlier.len() {
                assert(earlier[j] == target);
            } else {
                assert(all[j] == wildcard_finding(sev, Site::Nested(k as usize)));
            }
        }
    } else {
        if nested[k].is_glob_use {
            assert(all[all.len() - 1] == target);
        } else {
            if all.contains(target) {
                let j = choose|j: int| 0 <= j < all.len() && all[j] == target;
                assert(earlier[j] == target);
                assert(k > 0);
            }
        }
    }
}

/// Denied item kinds: an item is reported when the word for its kind (`enum`,
/// `struct`, `trait`, `impl`, `function`, `module`, `static`, `const`,
/// `union`) is in the denied list, by that word and its name, and not
/// otherwise; imports and other items are never reported.
pub proof fn lemma_denied_items(f: ModuleItemFacts, items: Vec<String>, sev: Severity, w: Seq<char>)
    requires
        (f.kind == ItemKindFacts::Enum && w == "enum"@) || (f.kind == ItemKindFacts::Struct && w == "struct"@) || (
        f.kind == ItemKindFacts::Trait && w == "trait"@) || (f.kind is Impl && w == "impl"@) || (f.kind
            == ItemKindFacts::Fn && w == "function"@) || (f.kind == ItemKindFacts::Mod && w == "module"@) || (f.kind
            == ItemKindFacts::Static && w == "static"@) || (f.kind == ItemKindFacts::Const && w == "const"@) || (
        f.kind == ItemKindFacts::Union && w == "union"@) || ((f.kind == ItemKindFacts::Use || f.kind
            == ItemKindFacts::Other) && w.len() == 0),
    ensures
        w.len() > 0 && (exists|j: int| 0 <= j < items@.len() && #[trigger] items@[j]@ == w) ==> leaf_rule_findings(
            ModuleRule::DeniedItems { items, severity: sev },
            f,
        ) == seq![
            finding_at(
                LintId::ModuleDeniedItems,
                sev,
                Site::Item,
                w + " '"@ + f.name@ + "' is not allowed in this module"@,
                "Consider moving this item to a different module"@,
            ),
        ],
        !(exists|j: int| 0 <= j < items@.len() && #[trigger] items@[j]@ == w) || w.len() == 0 ==> leaf_rule_findings(
            ModuleRule::DeniedItems { items, severity: sev },
            f,
        ).len() == 0,
{
    reveal_strlit("enum");
    reveal_strlit("struct");
    reveal_strlit("trait");
    reveal_strlit("impl");
    reveal_strlit("function");
    reveal_strlit("module");
    reveal_strlit("static");
    reveal_strlit("const");
    reveal_strlit("union");
    reveal_strlit("");
    assert(item_type_word(f.kind) == w);
    if w.len() > 0 && (exists|j: int| 0 <= j < items@.len() && #[trigger] items@[j]@ == w) {
        let j = choose|j: int| 0 <= j < items@.len() && #[trigger] items@[j]@ == w;
        assert(items@[j]@ == item_type_word(f.kind));
        let rule = ModuleRule::DeniedItems { items, severity: sev };
        assert(rule matches ModuleRule::DeniedItems { items: it, severity: sv } && it == items && sv == sev);
        assert(item_type_word(f.kind).len() > 0);
        assert(exists|j: int| 0 <= j < items@.len() && #[trigger] items@[j]@ == item_type_word(f.kind));
        assert(leaf_rule_findings(rule, f).len() == 1);
        assert(leaf_rule_findings(ModuleRule::DeniedItems { items, severity: sev }, f) =~= seq![
            finding_at(
                LintId::ModuleDeniedItems,
                sev,
                Site::Item,
                w + " '"@ + f.name@ + "' is not allowed in this module"@,
                "Consider moving this item to a different module"@,
            ),
        ]);
    }
}

/// An import is reported once when it matches none of the allowed patterns,
/// and once when it matches one of the denied patterns, in that order.
pub proof fn lemma_import_rules(allowed: Option<Seq<String>>, denied: Option<Seq<String>>, sev: Severity, f: ModuleItemFacts)
    ensures
        import_findings(allowed, denied, sev, f).len() == (if allowed matches Some(a) && !any_pattern_matches(
            a,
            import_path(f),
        ) {
            1int
        } else {
            0int
        }) + (if denied matches Some(d) && any_pattern_matches(d, import_path(f)) {
            1int
        } else {
            0int
        }),
        denied matches Some(d) && any_pattern_matches(d, import_path(f)) ==> import_findings(
            allowed,
            denied,
            sev,
            f,
        ).last() == finding_at(
            LintId::ModuleRestrictImports,
            sev,
            Site::Item,
            "Use of module '"@ + import_path(f) + "' is denied"@,
            "Remove this import"@,
        ),
{
}

/// The report for a wildcard import at `site`.
pub open spec fn wildcard_finding(sev: Severity, site: Site) -> FindingView {
    finding_at(
        LintId::ModuleWildcardImport,
        sev,
        site,
        "Wildcard imports are not allowed"@,
        "Import specific items instead of using a wildcard"@,
    )
}

/// The reports for the nested items that are wildcard imports, in order.
pub open spec fn nested_wildcard_findings(nested: Seq<NestedItem>, sev: Severity) -> Seq<FindingView>
    decreases nested.len(),
{
    if nested.len() == 0 {
        Seq::empty()
    } else {
        let k = nested.len() - 1;
        let earlier = nested_wildcard_findings(nested.drop_last(), sev);
        if nested[k].is_glob_use {
            earlier.push(wildcard_finding(sev, Site::Nested(k as usize)))
        } else {
            earlier
        }
    }
}

/// The imported path, its segments joined with `::`.
pub open spec fn import_path(f: ModuleItemFacts) -> Seq<char> {
    join(string_views(f.use_path@), "::"@)
}

/// The reports for an import under an allow list and a deny list.
pub open spec fn import_findings(
    allowed_only: Option<Seq<String>>,
    denied: Option<Seq<String>>,
    sev: Severity,
    f: ModuleItemFacts,
) -> Seq<FindingView> {
    let import = import_path(f);
    let allowed_part = match allowed_only {
        Some(allowed) => if !any_pattern_matches(allowed, import) {
            seq![
                finding_at(
                    LintId::ModuleRestrictImports,
                    sev,
                    Site::Item,
                    "Use of module '"@ + import + "' is not allowed; only "@ + debug_list(string_views(allowed))
                        + " are permitted"@,
                    "Use only allowed module imports"@,
                ),
            ]
        } else {
            Seq::empty()
        },
        None => Seq::empty(),
    };
    let denied_part = match denied {
        Some(list) => if any_pattern_matches(list, import) {
            seq![
                finding_at(
                    LintId::ModuleRestrictImports,
                    sev,
                    Site::Item,
                    "Use of module '"@ + import + "' is denied"@,
                    "Remove this import"@,
                ),
            ]
        } else {
            Seq::empty()
        },
        None => Seq::empty(),
    };
    allowed_part + denied_part
}

/// What a leaf rule (not a combination) reports for the item.
pub open spec fn leaf_rule_findings(rule: ModuleRule, f: ModuleItemFacts) -> Seq<FindingView> {
    let is_mod = f.kind == ItemKindFacts::Mod;
    match rule {
        ModuleRule::MustBeNamed(p, sev) => if is_mod && !matches_or_false(p@, f.name@) {
            seq![
                finding_at(
                    LintId::ModuleMustBeNamed,
                    sev,
                    Site::Item,
                    "Module must match pattern '"@ + p@ + "', found '"@ + f.name@ + "'"@,
                    "Rename this module to match the pattern '"@ + p@ + "'"@,
                ),
            ]
        } else {
            Seq::empty()
        },
        ModuleRule::MustNotBeNamed(p, sev) => if is_mod && matches_or_false(p@, f.name@) {
            seq![
                finding_at(
                    LintId::ModuleMustNotBeNamed,
                    sev,
                    Site::Item,
                    "Module must not match pattern '"@ + p@ + "'"@,
                    "Choose a name that doesn't match this pattern"@,
                ),
            ]
        } else {
            Seq::empty()
        },
        ModuleRule::MustNotBeEmpty(sev) => if is_mod && f.nested@.len() == 0 {
            seq![
                finding_at(
                    LintId::ModuleMustNotBeEmpty,
                    sev,
                    Site::Item,
                    "Module must not be empty"@,
                    "Add content to this module or remove it"@,
                ),
            ]
        } else {
            Seq::empty()
        },
        ModuleRule::MustBeEmpty(sev) => if is_mod {
            emptiness_findings(f.nested@, sev, false)
        } else {
            Seq::empty()
        },
        ModuleRule::MustHaveEmptyModFile(sev) => if is_mod {
            emptiness_findings(f.nested@, sev, true)
        } else {
            Seq::empty()
        },
        ModuleRule::RestrictImports { allowed_only, denied, severity } => if f.kind == ItemKindFacts::Use {
            import_findings(opt_strings(allowed_only), opt_strings(denied), severity, f)
        } else {
            Seq::empty()
        },
        ModuleRule::NoWildcardImports(sev) => if f.kind == ItemKindFacts::Use && f.is_glob_use {
            seq![wildcard_finding(sev, Site::Item)]
        } else if is_mod {
            nested_wildcard_findings(f.nested@, sev)
        } else {
            Seq::empty()
        },
        ModuleRule::DeniedItems { items, severity } => {
            let word = item_type_word(f.kind);
            if word.len() > 0 && (exists|i: int| 0 <= i < items@.len() && #[trigger] items@[i]@ == word) {
                seq![
                    finding_at(
                        LintId::ModuleDeniedItems,
                        severity,
                        Site::Item,
                        word + " '"@ + f.name@ + "' is not allowed in this module"@,
                        "Consider moving this item to a different module"@,
                    ),
                ]
            } else {
                Seq::empty()
            }
        },
        _ => Seq::empty(),
    }
}

/// A rule that is not a combination of other rules.
pub open spec fn is_leaf_module_rule(r: ModuleRule) -> bool {
    !(r is And || r is Or || r is Not)
}

/// Whether a leaf rule concerns the item at all: naming and emptiness rules
/// concern modules, import restrictions concern imports, the wildcard rule
/// concerns imports and modules, and denied kinds concern items of a kind the
/// rule can name.
pub open spec fn leaf_applies(r: ModuleRule, f: ModuleItemFacts) -> bool {
    match r {
        ModuleRule::MustBeNamed(..) | ModuleRule::MustNotBeNamed(..) | ModuleRule::MustNotBeEmpty(..)
        | ModuleRule::MustBeEmpty(..) | ModuleRule::MustHaveEmptyModFile(..) => f.kind == ItemKindFacts::Mod,
        ModuleRule::RestrictImports { .. } => f.kind == ItemKindFacts::Use,
        ModuleRule::NoWildcardImports(..) => f.kind == ItemKindFacts::Use || f.kind == ItemKindFacts::Mod,
        ModuleRule::DeniedItems { .. } => item_type_word(f.kind).len() > 0,
        _ => false,
    }
}

/// Whether some leaf of a rule concerns the item.
pub open spec fn rule_applies(r: ModuleRule, f: ModuleItemFacts) -> bool
    decreases r,
{
    match r {
        ModuleRule::And(a, b) => rule_applies(*a, f) || rule_applies(*b, f),
        ModuleRule::Or(a, b) => rule_applies(*a, f) || rule_applies(*b, f),
        ModuleRule::Not(i) => rule_applies(*i, f),
        _ => leaf_applies(r, f),
    }
}

/// Whether the item passes a rule: a leaf passes when it reports nothing;
/// `And` needs both rules to pass, `Or` one of them, and `Not` inverts its rule.
pub open spec fn module_rule_holds(r: ModuleRule, f: ModuleItemFacts) -> bool
    decreases r,
{
    match r {
        ModuleRule::And(a, b) => module_rule_holds(*a, f) && module_rule_holds(*b, f),
        ModuleRule::Or(a, b) => module_rule_holds(*a, f) || module_rule_holds(*b, f),
        ModuleRule::Not(i) => !module_rule_holds(*i, f),
        _ => leaf_rule_findings(r, f).len() == 0,
    }
}

/// The report for a leaf rule that passes where a `Not` requires it to fail:
/// the rule's opposite is reported.
pub open spec fn negated_finding(r: ModuleRule, f: ModuleItemFacts) -> FindingView {
    match r {
        ModuleRule::MustBeNamed(p, sev) => finding_at(
            LintId::ModuleMustNotBeNamed,
            sev,
            Site::Item,
            "Module must not match pattern '"@ + p@ + "'"@,
            "Choose a name that doesn't match this pattern"@,
        ),
        ModuleRule::MustNotBeNamed(p, sev) => finding_at(
            LintId::ModuleMustBeNamed,
            sev,
            Site::Item,
            "Module must match pattern '"@ + p@ + "', found '"@ + f.name@ + "'"@,
            "Rename this module to match the pattern '"@ + p@ + "'"@,
        ),
        ModuleRule::MustNotBeEmpty(sev) => finding_at(
            LintId::ModuleMustBeEmpty,
            sev,
            Site::Item,
            "Module must be empty"@,
            "Remove the items from this module"@,
        ),
        ModuleRule::MustBeEmpty(sev) => finding_at(
            LintId::ModuleMustNotBeEmpty,
            sev,
            Site::Item,
            "Module must not be empty"@,
            "Add content to this module or remove it"@,
        ),
        ModuleRule::MustHaveEmptyModFile(sev) => finding_at(
            LintId::ModuleMustHaveEmptyModFile,
            sev,
            Site::Item,
            "Module's mod.rs file must not be empty"@,
            "Add items to the mod.rs file"@,
        ),
        ModuleRule::RestrictImports { severity, .. } => finding_at(
            LintId::ModuleRestrictImports,
            severity,
            Site::Item,
            "Use of module '"@ + import_path(f) + "' must not be permitted"@,
            "Remove this import"@,
        ),
        ModuleRule::NoWildcardImports(sev) => finding_at(
            LintId::ModuleWildcardImport,
            sev,
            Site::Item,
            "Wildcard imports are required"@,
            "Import with a wildcard"@,
        ),
        ModuleRule::DeniedItems { severity, .. } => finding_at(
            LintId::ModuleDeniedItems,
            severity,
            Site::Item,
            item_type_word(f.kind) + " '"@ + f.name@ + "' is not of a kind required in this module"@,
            "Consider moving this item to a different module"@,
        ),
        _ => finding_at(LintId::ModuleDeniedItems, Severity::Warn, Site::Item, Seq::empty(), Seq::empty()),
    }
}

/// The reports for the leaves that make a combined rule differ from
/// `expected`, in order: nothing when the rule already has the expected value;
/// for `And` and `Or`, those of each side under the same expectation; for
/// `Not`, those of its rule under the opposite one; for a leaf that must pass,
/// what it reports; for a leaf that must fail, its opposite, if it concerns
/// the item.
pub open spec fn combined_findings(r: ModuleRule, expected: bool, f: ModuleItemFacts) -> Seq<FindingView>
    decreases r,
{
    if module_rule_holds(r, f) == expected {
        Seq::empty()
    } else {
        match r {
            ModuleRule::And(a, b) => combined_findings(*a, expected, f) + combined_findings(*b, expected, f),
            ModuleRule::Or(a, b) => combined_findings(*a, expected, f) + combined_findings(*b, expected, f),
            ModuleRule::Not(i) => combined_findings(*i, !expected, f),
            _ => if expected {
                leaf_rule_findings(r, f)
            } else if leaf_applies(r, f) {
                seq![negated_finding(r, f)]
            } else {
                Seq::empty()
            },
        }
    }
}

/// What one rule reports for the item: a leaf, what it reports; a
/// combination, when one of its leaves concerns the item, the reports of the
/// leaves that make it fail.
pub open spec fn module_rule_findings(rule: ModuleRule, f: ModuleItemFacts) -> Seq<FindingView> {
    if is_leaf_module_rule(rule) {
        leaf_rule_findings(rule, f)
    } else if rule_applies(rule, f) {
        combined_findings(rule, true, f)
    } else {
        Seq::empty()
    }
}

/// What the rules report for the item, rule after rule.
pub open spec fn module_findings(rules: Seq<ModuleRule>, f: ModuleItemFacts) -> Seq<FindingView>
    decreases rules.len(),
{
    if rules.len() == 0 {
        Seq::empty()
    } else {
        module_findings(rules.drop_last(), f) + module_rule_findings(rules.last(), f)
    }
}

/// Whether a lint with matcher `m` inspects the item: its parent module
/// matches, or it is a module whose own path matches.
pub open spec fn module_lint_selects(m: ModuleMatch, f: ModuleItemFacts) -> bool {
    module_match_holds(m, f.parent_path@) || (f.kind == ItemKindFacts::Mod && module_match_holds(
        m,
        f.full_path@,
    ))
}

fn push_finding(
    out: &mut Vec<Finding>,
    lint: LintId,
    severity: Severity,
    site: Site,
    message: String,
    help: &str,
)
    ensures
        finding_views(final(out)@) == finding_views(old(out)@).push(finding_at(lint, severity, site, message@, help@)),
{
    let f = Finding { lint, severity, site, message, help: String::from_str(help) };
    out.push(f);
    assert(finding_views(out@) =~= finding_views(old(out)@).push(finding_at(lint, severity, site, message@, help@)));
}

/// Appends the reports for the nested items that break an emptiness rule.
fn report_emptiness(nested: &Vec<NestedItem>, severity: Severity, mod_rs_only: bool, out: &mut Vec<Finding>)
    ensures
        finding_views(final(out)@) == finding_views(old(out)@) + emptiness_findings(nested@, severity, mod_rs_only),
{
    let ghost start = finding_views(out@);
    let mut k: usize = 0;
    while k < nested.len()
        invariant
            k <= nested@.len(),
            finding_views(out@) == start + emptiness_findings(nested@.take(k as int), severity, mod_rs_only),
        decreases nested.len() - k,
    {
        let n = &nested[k];
        assert(nested@.take(k + 1).drop_last() =~= nested@.take(k as int));
        assert(nested@.take(k + 1)[k as int] == nested@[k as int]);
        if is_disallowed_in_empty_module(n.kind) && (!mod_rs_only || is_mod_rs_file(n)) {
            let mut message = String::from_str("Item '");
            message.append(n.name.as_str());
            if mod_rs_only {
                message.append("' disallowed in mod.rs due to empty-mod-file policy");
                push_finding(
                    out,
                    LintId::ModuleMustHaveEmptyModFile,
                    severity,
                    Site::Nested(k),
                    message,
                    "Remove this item from the mod.rs file or move it to a submodule",
                );
            } else {
                message.append("' not allowed in empty module");
                push_finding(
                    out,
                    LintId::ModuleMustBeEmpty,
                    severity,
                    Site::Nested(k),
                    message,
                    "Remove this item from the module, which must be empty",
                );
            }
        }
        k = k + 1;
    }
    assert(nested@.take(nested@.len() as int) =~= nested@);
}

/// Appends the reports for the nested items that are wildcard imports.
fn report_nested_wildcards(nested: &Vec<NestedItem>, severity: Severity, out: &mut Vec<Finding>)
    ensures
        finding_views(final(out)@) == finding_views(old(out)@) + nested_wildcard_findings(nested@, severity),
{
    let ghost start = finding_views(out@);
    let mut k: usize = 0;
    while k < nested.len()
        invariant
            k <= nested@.len(),
            finding_views(out@) == start + nested_wildcard_findings(nested@.take(k as int), severity),
        decreases nested.len() - k,
    {
        assert(nested@.take(k + 1).drop_last() =~= nested@.take(k as int));
        assert(nested@.take(k + 1)[k as int] == nested@[k as int]);
        if nested[k].is_glob_use {
            push_finding(
                out,
                LintId::ModuleWildcardImport,
                severity,
                Site::Nested(k),
                String::from_str("Wildcard imports are not allowed"),
                "Import specific items instead of using a wildcard",
            );
        }
        k = k + 1;
    }
    assert(nested@.take(nested@.len() as int) =~= nested@);
}

/// Appends the reports for an import under an allow list and a deny list.
fn report_imports(
    allowed_only: &Option<Vec<String>>,
    denied: &Option<Vec<String>>,
    severity: Severity,
    facts: &ModuleItemFacts,
    out: &mut Vec<Finding>,
)
    ensures
        finding_views(final(out)@) == finding_views(old(out)@) + import_findings(
            opt_strings(*allowed_only),
            opt_strings(*denied),
            severity,
            *facts,
        ),
{
    let ghost start = finding_views(out@);
    let import = join_strings(&facts.use_path, "::");
    assert(import@ == import_path(*facts));
    if let Some(allowed) = allowed_only {
        if !any_matches(allowed, import.as_str()) {
            let mut message = String::from_str("Use of module '");
            message.append(import.as_str());
            message.append("' is not allowed; only ");
            let listed = debug_strings(allowed);
            message.append(listed.as_str());
            message.append(" are permitted");
            push_finding(
                out,
                LintId::ModuleRestrictImports,
                severity,
                Site::Item,
                message,
                "Use only allowed module imports",
            );
        }
    }
    let ghost middle = finding_views(out@);
    if let Some(list) = denied {
        if any_matches(list, import.as_str()) {
            let mut message = String::from_str("Use of module '");
            message.append(import.as_str());
            message.append("' is denied");
            push_finding(out, LintId::ModuleRestrictImports, severity, Site::Item, message, "Remove this import");
        }
    }
    assert(finding_views(out@) =~= start + import_findings(
        opt_strings(*allowed_only),
        opt_strings(*denied),
        severity,
        *facts,
    ));
}

/// Appends what leaf rule `rule` reports for the item.
fn report_leaf(rule: &ModuleRule, facts: &ModuleItemFacts, out: &mut Vec<Finding>)
    ensures
        finding_views(final(out)@) == finding_views(old(out)@) + leaf_rule_findings(*rule, *facts),
{
    let ghost start = finding_views(out@);
    let is_mod = facts.kind == ItemKindFacts::Mod;
    match rule {
        ModuleRule::MustBeNamed(pattern, severity) => {
            if is_mod && !pattern_matches(pattern.as_str(), facts.name.as_str()) {
                let mut message = String::from_str("Module must match pattern '");
                message.append(pattern.as_str());
                message.append("', found '");
                message.append(facts.name.as_str());
                message.append("'");
                let mut help = String::from_str("Rename this module to match the pattern '");
                help.append(pattern.as_str());
                help.append("'");
                let f = Finding { lint: LintId::ModuleMustBeNamed, severity: *severity, site: Site::Item, message, help };
                out.push(f);
            }
        },
        ModuleRule::MustNotBeNamed(pattern, severity) => {
            if is_mod && pattern_matches(pattern.as_str(), facts.name.as_str()) {
                let mut message = String::from_str("Module must not match pattern '");
                message.append(pattern.as_str());
                message.append("'");
                push_finding(
                    out,
                    LintId::ModuleMustNotBeNamed,
                    *severity,
                    Site::Item,
                    message,
                    "Choose a name that doesn't match this pattern",
                );
            }
        },
        ModuleRule::MustNotBeEmpty(severity) => {
            if is_mod && facts.nested.len() == 0 {
                push_finding(
                    out,
                    LintId::ModuleMustNotBeEmpty,
                    *severity,
                    Site::Item,
                    String::from_str("Module must not be empty"),
                    "Add content to this module or remove it",
                );
            }
        },
        ModuleRule::MustBeEmpty(severity) => {
            if is_mod {
                report_emptiness(&facts.nested, *severity, false, out);
            }
        },
        ModuleRule::MustHaveEmptyModFile(severity) => {
            if is_mod {
                report_emptiness(&facts.nested, *severity, true, out);
            }
        },
        ModuleRule::RestrictImports { allowed_only, denied, severity } => {
            if facts.kind == ItemKindFacts::Use {
                report_imports(allowed_only, denied, *severity, facts, out);
            }
        },
        ModuleRule::NoWildcardImports(severity) => {
            if facts.kind == ItemKindFacts::Use && facts.is_glob_use {
                push_finding(
                    out,
                    LintId::ModuleWildcardImport,
                    *severity,
                    Site::Item,
                    String::from_str("Wildcard imports are not allowed"),
                    "Import specific items instead of using a wildcard",
                );
            } else if is_mod {
                report_nested_wildcards(&facts.nested, *severity, out);
            }
        },
        ModuleRule::DeniedItems { items, severity } => {
            let word = item_type_name(facts.kind);
            if word.unicode_len() > 0 && contains_string(items, word) {
                let mut message = String::from_str(word);
                message.append(" '");
                message.append(facts.name.as_str());
                message.append("' is not allowed in this module");
                push_finding(
                    out,
                    LintId::ModuleDeniedItems,
                    *severity,
                    Site::Item,
                    message,
                    "Consider moving this item to a different module",
                );
            }
        },
        _ => {},
    }
    assert(finding_views(out@) =~= start + leaf_rule_findings(*rule, *facts));
}

/// Whether a leaf rule concerns the item.
fn leaf_applies_to(rule: &ModuleRule, facts: &ModuleItemFacts) -> (r: bool)
    ensures
        r == leaf_applies(*rule, *facts),
{
    match rule {
        ModuleRule::MustBeNamed(..) | ModuleRule::MustNotBeNamed(..) | ModuleRule::MustNotBeEmpty(..)
        | ModuleRule::MustBeEmpty(..) | ModuleRule::MustHaveEmptyModFile(..) => facts.kind == ItemKindFacts::Mod,
        ModuleRule::RestrictImports { .. } => facts.kind == ItemKindFacts::Use,
        ModuleRule::NoWildcardImports(..) => facts.kind == ItemKindFacts::Use || facts.kind == ItemKindFacts::Mod,
        ModuleRule::DeniedItems { .. } => item_type_name(facts.kind).unicode_len() > 0,
        _ => false,
    }
}

/// Whether some leaf of `rule` concerns the item.
fn rule_applies_to(rule: &ModuleRule, facts: &ModuleItemFacts) -> (r: bool)
    ensures
        r == rule_applies(*rule, *facts),
    decreases rule,
{
    match rule {
        ModuleRule::And(a, b) => rule_applies_to(a, facts) || rule_applies_to(b, facts),
        ModuleRule::Or(a, b) => rule_applies_to(a, facts) || rule_applies_to(b, facts),
        ModuleRule::Not(i) => rule_applies_to(i, facts),
        _ => leaf_applies_to(rule, facts),
    }
}

/// Whether the item passes `rule`.
fn rule_holds(rule: &ModuleRule, facts: &ModuleItemFacts) -> (r: bool)
    ensures
        r == module_rule_holds(*rule, *facts),
    decreases rule,
{
    match rule {
        ModuleRule::And(a, b) => rule_holds(a, facts) && rule_holds(b, facts),
        ModuleRule::Or(a, b) => rule_holds(a, facts) || rule_holds(b, facts),
        ModuleRule::Not(i) => !rule_holds(i, facts),
        _ => {
            let mut scratch: Vec<Finding> = Vec::new();
            report_leaf(rule, facts, &mut scratch);
            assert(finding_views(scratch@).len() == scratch@.len());
            scratch.len() == 0
        },
    }
}

/// Appends the report of the opposite of leaf rule `rule`.
fn report_negated(rule: &ModuleRule, facts: &ModuleItemFacts, out: &mut Vec<Finding>)
    requires
        is_leaf_module_rule(*rule),
    ensures
        finding_views(final(out)@) == finding_views(old(out)@).push(negated_finding(*rule, *facts)),
{
    match rule {
        ModuleRule::MustBeNamed(pattern, severity) => {
            let mut message = String::from_str("Module must not match pattern '");
            message.append(pattern.as_str());
            message.append("'");
            push_finding(
                out,
                LintId::ModuleMustNotBeNamed,
                *severity,
                Site::Item,
                message,
                "Choose a name that doesn't match this pattern",
            );
        },
        ModuleRule::MustNotBeNamed(pattern, severity) => {
            let mut message = String::from_str("Module must match pattern '");
            message.append(pattern.as_str());
            message.append("', found '");
            message.append(facts.name.as_str());
            message.append("'");
            let mut help = String::from_str("Rename this module to match the pattern '");
            help.append(pattern.as_str());
            help.append("'");
            let f = Finding { lint: LintId::ModuleMustBeNamed, severity: *severity, site: Site::Item, message, help };
            let ghost before = finding_views(out@);
            out.push(f);
            assert(finding_views(out@) =~= before.push(f@));
        },
        ModuleRule::MustNotBeEmpty(severity) => {
            push_finding(
                out,
                LintId::ModuleMustBeEmpty,
                *severity,
                Site::Item,
                String::from_str("Module must be empty"),
                "Remove the items from this module",
            );
        },
        ModuleRule::MustBeEmpty(severity) => {
            push_finding(
                out,
                LintId::ModuleMustNotBeEmpty,
                *severity,
                Site::Item,
                String::from_str("Module must not be empty"),
                "Add content to this module or remove it",
            );
        },
        ModuleRule::MustHaveEmptyModFile(severity) => {
            push_finding(
                out,
                LintId::ModuleMustHaveEmptyModFile,
                *severity,
                Site::Item,
                String::from_str("Module's mod.rs file must not be empty"),
                "Add items to the mod.rs file",
            );
        },
        ModuleRule::RestrictImports { severity, .. } => {
            let import = join_strings(&facts.use_path, "::");
            let mut message = String::from_str("Use of module '");
            message.append(import.as_str());
            message.append("' must not be permitted");
            push_finding(out, LintId::ModuleRestrictImports, *severity, Site::Item, message, "Remove this import");
        },
        ModuleRule::NoWildcardImports(severity) => {
            push_finding(
                out,
                LintId::ModuleWildcardImport,
                *severity,
                Site::Item,
                String::from_str("Wildcard imports are required"),
                "Import with a wildcard",
            );
        },
        ModuleRule::DeniedItems { severity, .. } => {
            let mut message = String::from_str(item_type_name(facts.kind));
            message.append(" '");
            message.append(facts.name.as_str());
            message.append("' is not of a kind required in this module");
            push_finding(
                out,
                LintId::ModuleDeniedItems,
                *severity,
                Site::Item,
                message,
                "Consider moving this item to a different module",
            );
        },
        _ => {},
    }
}

/// Appends the reports for the leaves that make `rule` differ from `expected`.
fn report_combined(rule: &ModuleRule, expected: bool, facts: &ModuleItemFacts, out: &mut Vec<Finding>)
    ensures
        finding_views(final(out)@) == finding_views(old(out)@) + combined_findings(*rule, expected, *facts),
    decreases rule,
{
    let ghost start = finding_views(out@);
    if rule_holds(rule, facts) == expected {
        assert(finding_views(out@) =~= start + Seq::<FindingView>::empty());
        return;
    }
    match rule {
        ModuleRule::And(a, b) => {
            report_combined(a, expected, facts, out);
            report_combined(b, expected, facts, out);
            assert(finding_views(out@) =~= start + (combined_findings(**a, expected, *facts) + combined_findings(
                **b,
                expected,
                *facts,
            )));
        },
        ModuleRule::Or(a, b) => {
            report_combined(a, expected, facts, out);
            report_combined(b, expected, facts, out);
            assert(finding_views(out@) =~= start + (combined_findings(**a, expected, *facts) + combined_findings(
                **b,
                expected,
                *facts,
            )));
        },
        ModuleRule::Not(i) => {
            report_combined(i, !expected, facts, out);
        },
        _ => {
            if expected {
                report_leaf(rule, facts, out);
            } else if leaf_applies_to(rule, facts) {
                report_negated(rule, facts, out);
                assert(finding_views(out@) =~= start + seq![negated_finding(*rule, *facts)]);
            } else {
                assert(finding_views(out@) =~= start + Seq::<FindingView>::empty());
            }
        },
    }
}

/// Appends what `rule` reports for the item.
fn report_rule(rule: &ModuleRule, facts: &ModuleItemFacts, out: &mut Vec<Finding>)
    ensures
        finding_views(final(out)@) == finding_views(old(out)@) + module_rule_findings(*rule, *facts),
{
    let ghost start = finding_views(out@);
    match rule {
        ModuleRule::And(..) | ModuleRule::Or(..) | ModuleRule::Not(..) => {
            if rule_applies_to(rule, facts) {
                report_combined(rule, true, facts, out);
            } else {
                assert(finding_views(out@) =~= start + Seq::<FindingView>::empty());
            }
        },
        _ => report_leaf(rule, facts, out),
    }
}

/// A configured module lint, ready to check items.
#[derive(Debug)]
pub struct ModuleLint {
    pub config: ConfigModuleLint,
}

impl ModuleLint {
    /// The module lint configured by `config`, which must be a module lint.
    pub fn new(config: &ConfiguredLint) -> (r: ModuleLint)
        requires
            config is Module,
        ensures
            config matches ConfiguredLint::Module(m) && r.config.name == m.name && r.config.matches == m.matches
                && same_module_rules(r.config.rules@, m.rules@),
    {
        match config {
            ConfiguredLint::Module(m) => ModuleLint {
                config: ConfigModuleLint {
                    name: m.name.clone(),
                    matches: copy_module_match(&m.matches),
                    rules: copy_module_rules(&m.rules),
                },
            },
            _ => ModuleLint {
                config: ConfigModuleLint {
                    name: String::new(),
                    matches: ModuleMatch::Module(String::new()),
                    rules: Vec::new(),
                },
            },
        }
    }

    /// Whether the lint's matcher selects module `path`.
    pub fn matches_module(&self, path: &str) -> (r: bool)
        ensures
            r == module_match_holds(self.config.matches, path@),
    {
        evaluate_module_match(&self.config.matches, path)
    }

    /// What the lint reports for the item described by `facts`: nothing when it
    /// does not inspect the item; else what each rule reports, rule after rule.
    pub fn check_item(&self, facts: &ModuleItemFacts) -> (r: Vec<Finding>)
        ensures
            finding_views(r@) == (if module_lint_selects(self.config.matches, *facts) {
                module_findings(self.config.rules@, *facts)
            } else {
                Seq::empty()
            }),
    {
        let mut out: Vec<Finding> = Vec::new();
        if !self.matches_module(facts.parent_path.as_str()) {
            if facts.kind == ItemKindFacts::Mod {
                if !self.matches_module(facts.full_path.as_str()) {
                    assert(finding_views(out@) =~= Seq::<FindingView>::empty());
                    return out;
                }
            } else {
                assert(finding_views(out@) =~= Seq::<FindingView>::empty());
                return out;
            }
        }
        let rules = &self.config.rules;
        let mut i: usize = 0;
        assert(finding_views(out@) =~= module_findings(rules@.take(0), *facts));
        while i < rules.len()
            invariant
                i <= rules@.len(),
                finding_views(out@) == module_findings(rules@.take(i as int), *facts),
            decreases rules.len() - i,
        {
            report_rule(&rules[i], facts, &mut out);
            assert(rules@.take(i + 1).drop_last() =~= rules@.take(i as int));
            i = i + 1;
        }
        assert(rules@.take(rules@.len() as int) =~= rules@);
        out
    }
}

impl ArchitectureLintRule for ModuleLint {
    fn name(&self) -> (r: String)
        ensures
            r@ == self.config.name@,
    {
        self.config.name.clone()
    }

    /// A module lint constrains the modules its matcher selects.
    fn applies_to_module(&self, namespace: &str) -> (r: bool)
        ensures
            r == module_match_holds(self.config.matches, namespace@),
    {
        self.matches_module(namespace)
    }

    /// Module lints constrain no trait.
    fn applies_to_trait(&self, trait_path: &str) -> (r: bool)
        ensures
            !r,
    {
        false
    }
}

} // verus!
