//! What is known about a project's modules and traits, gathered per crate and merged.
use vstd::prelude::*;
use vstd::string::*;
use crate::order::{Keyed, key_fn, lemma_with_key_map, same_order_per_key, sort_by_key, sorted_by_key, with_key};
use crate::text::{concat2, seq_ends_with, str_ends_with, str_eq};

verus! {

/// Directory in which per-crate context files are kept.
pub const PUP_DIR: &'static str = ".pup";

/// Suffix of every context file name.
pub const CONTEXT_FILE_SUFFIX: &'static str = "_context.json";

/// A module and the lints that apply to it.
#[derive(Debug, Clone)]
pub struct ModuleInfo {
    /// Fully qualified module name.
    pub name: String,
    /// Names of the lints that apply to this module.
    pub applicable_lints: Vec<String>,
}

/// A trait and its implementations.
#[derive(Debug, Clone)]
pub struct TraitInfo {
    /// Fully qualified trait name.
    pub name: String,
    /// Types implementing this trait.
    pub implementors: Vec<String>,
    /// Names of the lints that apply to this trait.
    pub applicable_lints: Vec<String>,
}

/// Abstract value of a module entry.
pub struct ModuleInfoView {
    pub name: Seq<char>,
    pub applicable_lints: Seq<Seq<char>>,
}

/// Abstract value of a trait entry.
pub struct TraitInfoView {
    pub name: Seq<char>,
    pub implementors: Seq<Seq<char>>,
    pub applicable_lints: Seq<Seq<char>>,
}

/// The views of a sequence of strings.
pub open spec fn views(v: Seq<String>) -> Seq<Seq<char>> {
    v.map_values(|s: String| s@)
}

impl View for ModuleInfo {
    type V = ModuleInfoView;

    open spec fn view(&self) -> ModuleInfoView {
        ModuleInfoView { name: self.name@, applicable_lints: views(self.applicable_lints@) }
    }
}

impl View for TraitInfo {
    type V = TraitInfoView;

    open spec fn view(&self) -> TraitInfoView {
        TraitInfoView {
            name: self.name@,
            implementors: views(self.implementors@),
            applicable_lints: views(self.applicable_lints@),
        }
    }
}

impl Keyed for ModuleInfo {
    open spec fn key(&self) -> Seq<char> {
        self.name@
    }

    fn key_str(&self) -> (r: &str) {
        self.name.as_str()
    }
}

impl Keyed for TraitInfo {
    open spec fn key(&self) -> Seq<char> {
        self.name@
    }

    fn key_str(&self) -> (r: &str) {
        self.name.as_str()
    }
}

impl PartialEq<str> for ModuleInfo {
    fn eq(&self, other: &str) -> (r: bool) {
        str_eq(self.name.as_str(), other)
    }
}

impl vstd::std_specs::cmp::PartialEqSpecImpl<str> for ModuleInfo {
    open spec fn obeys_eq_spec() -> bool {
        true
    }

    open spec fn eq_spec(&self, other: &str) -> bool {
        self.name@ == other@
    }
}

impl<'a> PartialEq<&'a str> for ModuleInfo {
    fn eq(&self, other: &&'a str) -> (r: bool) {
        str_eq(self.name.as_str(), *other)
    }
}

impl<'a> vstd::std_specs::cmp::PartialEqSpecImpl<&'a str> for ModuleInfo {
    open spec fn obeys_eq_spec() -> bool {
        true
    }

    open spec fn eq_spec(&self, other: &&'a str) -> bool {
        self.name@ == (*other)@
    }
}

/// Project structure discovered at compile time: modules, the crate's root
/// module name, and traits with their implementors.
#[derive(Debug, Clone)]
pub struct ProjectContext {
    /// All modules with their applicable lints, fully qualified.
    pub modules: Vec<ModuleInfo>,
    /// The top-level crate name (root module).
    pub module_root: String,
    /// All traits, fully qualified, with their implementations.
    pub traits: Vec<TraitInfo>,
    /// Directory in which context files are stored (not serialized).
    pub base_dir: String,
}

/// Why a context could not be written or read.
#[derive(Debug, Clone, Copy, PartialEq, Eq, Structural)]
pub enum ContextError {
    /// The context has no crate name, so it has no file name.
    EmptyModuleRoot,
    /// No context file was found.
    NoContextFiles,
}

impl ContextError {
    /// What went wrong, in words.
    pub fn message(&self) -> (r: &'static str)
        ensures
            r@ == match self {
                ContextError::EmptyModuleRoot => "Cannot serialize ProjectContext with empty module_root"@,
                ContextError::NoContextFiles => "No project context files found"@,
            },
    {
        match self {
            ContextError::EmptyModuleRoot => "Cannot serialize ProjectContext with empty module_root",
            ContextError::NoContextFiles => "No project context files found",
        }
    }
}

/// Module entries, named as given, with no applicable lints.
pub open spec fn modules_from_names(names: Seq<Seq<char>>, m: Seq<ModuleInfoView>) -> bool {
    &&& m.len() == names.len()
    &&& forall|i: int| 0 <= i < m.len() ==> (#[trigger] m[i]).name == names[i] && m[i].applicable_lints.len() == 0
}

/// The views of module entries.
pub open spec fn module_views(v: Seq<ModuleInfo>) -> Seq<ModuleInfoView> {
    v.map_values(|m: ModuleInfo| m@)
}

/// The views of trait entries.
pub open spec fn trait_views(v: Seq<TraitInfo>) -> Seq<TraitInfoView> {
    v.map_values(|t: TraitInfo| t@)
}

/// The file name under which a context for crate `root` is stored.
pub open spec fn context_file_name_of(root: Seq<char>) -> Seq<char> {
    root + CONTEXT_FILE_SUFFIX@
}

/// The directory and file name under which context `c` is written, if it has
/// a crate name.
pub open spec fn context_file_location(c: ProjectContext) -> Option<(Seq<char>, Seq<char>)> {
    if c.module_root@.len() == 0 {
        None
    } else {
        Some((c.base_dir@, context_file_name_of(c.module_root@)))
    }
}

/// A context made for directory `dir` (as `with_base_dir` makes it) and then
/// given the non-empty crate name `m` is written in `dir`, under `m` followed
/// by the context suffix.
pub proof fn lemma_base_dir_file_location(made: ProjectContext, named: ProjectContext, dir: Seq<char>, m: Seq<char>)
    requires
        made.base_dir@ == dir,
        named.base_dir == made.base_dir,
        named.module_root@ == m,
        m.len() > 0,
    ensures
        context_file_location(named) == Some((dir, m + CONTEXT_FILE_SUFFIX@)),
{
}

/// Two contexts built from the same module names, crate name and traits (as
/// `with_data` and `with_data_and_base_dir` build them) hold the same entries;
/// only their directory, and so where they are written, can differ.
pub proof fn lemma_same_data_other_dir(names: Seq<Seq<char>>, a: ProjectContext, b: ProjectContext)
    requires
        modules_from_names(names, module_views(a.modules@)),
        modules_from_names(names, module_views(b.modules@)),
        a.module_root == b.module_root,
        a.traits == b.traits,
    ensures
        module_views(a.modules@) == module_views(b.modules@),
        trait_views(a.traits@) == trait_views(b.traits@),
        context_file_location(a) is Some <==> context_file_location(b) is Some,
        context_file_location(a) matches Some((da, na)) ==> da == a.base_dir@ && context_file_location(b) == Some(
            (b.base_dir@, na),
        ),
{
    let va = module_views(a.modules@);
    let vb = module_views(b.modules@);
    assert forall|i: int| 0 <= i < va.len() implies va[i] == vb[i] by {
        assert(va[i].name == names[i]);
        assert(vb[i].name == names[i]);
        assert(va[i].applicable_lints =~= vb[i].applicable_lints);
    }
    assert(va =~= vb);
}

fn module_infos_from_names(modules: Vec<String>) -> (r: Vec<ModuleInfo>)
    ensures
        modules_from_names(views(modules@), module_views(r@)),
{
    let mut out: Vec<ModuleInfo> = Vec::new();
    let mut rest = modules;
    let ghost names = views(rest@);
    let mut i: usize = 0;
    let n = rest.len();
    let mut src: Vec<String> = Vec::new();
    // Move the names out in order.
    while rest.len() > 0
        invariant
            src@.len() + rest@.len() == n,
            views(src@) + views(rest@) =~= names,
        decreases rest.len(),
    {
        let ghost before = rest@;
        let name = rest.remove(0);
        assert(before.remove(0) == rest@);
        src.push(name);
        assert(views(src@) + views(rest@) =~= names);
    }
    assert(views(src@) =~= names);
    while i < src.len()
        invariant
            i <= src@.len(),
            out@.len() == i,
            views(src@) == names,
            forall|k: int| 0 <= k < i ==> (#[trigger] out@[k])@.name == names[k] && out@[k]@.applicable_lints.len()
                == 0,
        decreases src.len() - i,
    {
        let name = src[i].clone();
        out.push(ModuleInfo { name, applicable_lints: Vec::new() });
        i = i + 1;
    }
    out
}

impl ProjectContext {
    /// An empty context stored under the default directory.
    pub fn new() -> (r: Self)
        ensures
            r.modules@.len() == 0,
            r.module_root@.len() == 0,
            r.traits@.len() == 0,
            r.base_dir@ == PUP_DIR@,
    {
        ProjectContext {
            modules: Vec::new(),
            module_root: String::new(),
            traits: Vec::new(),
            base_dir: String::from_str(PUP_DIR),
        }
    }

    /// An empty context stored under `dir_path`.
    pub fn with_base_dir(dir_path: &str) -> (r: Self)
        ensures
            r.modules@.len() == 0,
            r.module_root@.len() == 0,
            r.traits@.len() == 0,
            r.base_dir@ == dir_path@,
    {
        ProjectContext {
            modules: Vec::new(),
            module_root: String::new(),
            traits: Vec::new(),
            base_dir: String::from_str(dir_path),
        }
    }

    /// A context with the given modules (no applicable lints), crate name and
    /// traits, stored under the default directory.
    pub fn with_data(modules: Vec<String>, module_root: String, traits: Vec<TraitInfo>) -> (r: Self)
        ensures
            modules_from_names(views(modules@), module_views(r.modules@)),
            r.module_root == module_root,
            r.traits == traits,
            r.base_dir@ == PUP_DIR@,
    {
        ProjectContext {
            modules: module_infos_from_names(modules),
            module_root,
            traits,
            base_dir: String::from_str(PUP_DIR),
        }
    }

    /// A context with the given modules (no applicable lints), crate name and
    /// traits, stored under `dir_path`.
    pub fn with_data_and_base_dir(
        modules: Vec<String>,
        module_root: String,
        traits: Vec<TraitInfo>,
        dir_path: &str,
    ) -> (r: Self)
        ensures
            modules_from_names(views(modules@), module_views(r.modules@)),
            r.module_root == module_root,
            r.traits == traits,
            r.base_dir@ == dir_path@,
    {
        ProjectContext {
            modules: module_infos_from_names(modules),
            module_root,
            traits,
            base_dir: String::from_str(dir_path),
        }
    }

    /// The name of the file this context is written to: the crate name followed
    /// by the context suffix. A context without a crate name cannot be written.
    pub fn context_file_name(&self) -> (r: Result<String, ContextError>)
        ensures
            self.module_root@.len() == 0 <==> r is Err,
            r matches Err(e) ==> e == ContextError::EmptyModuleRoot,
            r matches Ok(name) ==> name@ == context_file_name_of(self.module_root@),
    {
        if self.module_root.unicode_len() == 0 {
            return Err(ContextError::EmptyModuleRoot);
        }
        Ok(concat2(self.module_root.as_str(), CONTEXT_FILE_SUFFIX))
    }

    /// Where this context is written: its directory and its file name. A context
    /// without a crate name cannot be written.
    pub fn file_location(&self) -> (r: Result<(String, String), ContextError>)
        ensures
            r is Err <==> context_file_location(*self) is None,
            r matches Err(e) ==> e == ContextError::EmptyModuleRoot,
            r matches Ok((dir, name)) ==> context_file_location(*self) == Some((dir@, name@)),
    {
        match self.context_file_name() {
            Ok(name) => Ok((self.base_dir.clone(), name)),
            Err(e) => Err(e),
        }
    }

    /// Merges `other` into this context: adopts its crate name if this one has
    /// none, and appends its modules and traits.
    pub fn merge(&mut self, other: &ProjectContext)
        ensures
            final(self).module_root@ == (if old(self).module_root@.len() == 0 {
                other.module_root@
            } else {
                old(self).module_root@
            }),
            module_views(final(self).modules@) == module_views(old(self).modules@) + module_views(other.modules@),
            trait_views(final(self).traits@) == trait_views(old(self).traits@) + trait_views(other.traits@),
            final(self).base_dir == old(self).base_dir,
    {
        if self.module_root.unicode_len() == 0 {
            self.module_root = other.module_root.clone();
        }
        let ghost m0 = module_views(self.modules@);
        let mut i: usize = 0;
        while i < other.modules.len()
            invariant
                i <= other.modules@.len(),
                module_views(self.modules@) =~= m0 + module_views(other.modules@).take(i as int),
                self.module_root@ == (if old(self).module_root@.len() == 0 {
                    other.module_root@
                } else {
                    old(self).module_root@
                }),
                self.traits == old(self).traits,
                self.base_dir == old(self).base_dir,
            decreases other.modules.len() - i,
        {
            let m = copy_module(&other.modules[i]);
            let ghost before = self.modules@;
            self.modules.push(m);
            assert(module_views(self.modules@) =~= module_views(before).push(other.modules@[i as int]@));
            assert(module_views(other.modules@).take(i + 1) =~= module_views(other.modules@).take(i as int).push(
                other.modules@[i as int]@,
            ));
            i = i + 1;
        }
        assert(module_views(other.modules@).take(other.modules@.len() as int) =~= module_views(other.modules@));
        assert(module_views(self.modules@) == module_views(old(self).modules@) + module_views(other.modules@));
        let ghost t0 = trait_views(self.traits@);
        let mut j: usize = 0;
        while j < other.traits.len()
            invariant
                j <= other.traits@.len(),
                trait_views(self.traits@) =~= t0 + trait_views(other.traits@).take(j as int),
                self.module_root@ == (if old(self).module_root@.len() == 0 {
                    other.module_root@
                } else {
                    old(self).module_root@
                }),
                module_views(self.modules@) == module_views(old(self).modules@) + module_views(other.modules@),
                self.base_dir == old(self).base_dir,
            decreases other.traits.len() - j,
        {
            let t = copy_trait(&other.traits[j]);
            let ghost before = self.traits@;
            self.traits.push(t);
            assert(trait_views(self.traits@) =~= trait_views(before).push(other.traits@[j as int]@));
            assert(trait_views(other.traits@).take(j + 1) =~= trait_views(other.traits@).take(j as int).push(
                other.traits@[j as int]@,
            ));
            j = j + 1;
        }
        assert(trait_views(other.traits@).take(other.traits@.len() as int) =~= trait_views(other.traits@));
    }

    /// Sorts modules and traits by name, for a stable presentation; entries with
    /// equal names keep the order they had.
    pub fn deduplicate(&mut self)
        ensures
            sorted_by_key(final(self).modules@),
            sorted_by_key(final(self).traits@),
            final(self).modules@.to_multiset() == old(self).modules@.to_multiset(),
            final(self).traits@.to_multiset() == old(self).traits@.to_multiset(),
            same_order_per_key(final(self).modules@, old(self).modules@, key_fn::<ModuleInfo>()),
            same_order_per_key(final(self).traits@, old(self).traits@, key_fn::<TraitInfo>()),
            final(self).module_root == old(self).module_root,
            final(self).base_dir == old(self).base_dir,
    {
        sort_by_key(&mut self.modules);
        sort_by_key(&mut self.traits);
    }

    /// Combines the contexts read from the files of one directory: each is merged
    /// in turn into an empty context for `dir_path`, which is then sorted by name
    /// (entries with equal names stay in the order they were merged); the
    /// distinct crate names are listed in the order first seen. Having no context
    /// at all is an error.
    pub fn aggregate(dir_path: &str, contexts: Vec<ProjectContext>) -> (r: Result<
        (ProjectContext, Vec<String>),
        ContextError,
    >)
        ensures
            contexts@.len() == 0 <==> r is Err,
            r matches Err(e) ==> e == ContextError::NoContextFiles,
            r matches Ok((ctx, names)) ==> {
                &&& ctx.base_dir@ == dir_path@
                &&& ctx.module_root@ == first_root(contexts@)
                &&& module_views(ctx.modules@).to_multiset() == all_modules(contexts@).to_multiset()
                &&& trait_views(ctx.traits@).to_multiset() == all_traits(contexts@).to_multiset()
                &&& sorted_by_key(ctx.modules@)
                &&& sorted_by_key(ctx.traits@)
                &&& same_order_per_key(module_views(ctx.modules@), all_modules(contexts@), module_entry_name())
                &&& same_order_per_key(trait_views(ctx.traits@), all_traits(contexts@), trait_entry_name())
                &&& views(names@) == distinct_roots(contexts@)
            },
    {
        if contexts.len() == 0 {
            return Err(ContextError::NoContextFiles);
        }
        let mut agg = ProjectContext::with_base_dir(dir_path);
        let mut names: Vec<String> = Vec::new();
        let mut i: usize = 0;
        while i < contexts.len()
            invariant
                i <= contexts@.len(),
                agg.base_dir@ == dir_path@,
                agg.module_root@ == first_root(contexts@.take(i as int)),
                module_views(agg.modules@) == all_modules(contexts@.take(i as int)),
                trait_views(agg.traits@) == all_traits(contexts@.take(i as int)),
                views(names@) == distinct_roots(contexts@.take(i as int)),
            decreases contexts.len() - i,
        {
            let c = &contexts[i];
            proof {
                assert(contexts@.take(i + 1).drop_last() =~= contexts@.take(i as int));
                assert(contexts@.take(i + 1).last() == contexts@[i as int]);
            }
            if !contains_name(&names, c.module_root.as_str()) {
                let ghost before = names@;
                names.push(c.module_root.clone());
                assert(views(names@) =~= views(before).push(c.module_root@));
            }
            agg.merge(c);
            i = i + 1;
        }
        proof {
            assert(contexts@.take(contexts@.len() as int) =~= contexts@);
        }
        let ghost pre_m = agg.modules@;
        let ghost pre_t = agg.traits@;
        agg.deduplicate();
        proof {
            lemma_views_multiset_modules(pre_m, agg.modules@);
            lemma_views_multiset_traits(pre_t, agg.traits@);
            lemma_views_keep_order_modules(agg.modules@, pre_m);
            lemma_views_keep_order_traits(agg.traits@, pre_t);
        }
        Ok((agg, names))
    }
}

/// Whether `name` is one of `names`.
fn contains_name(names: &Vec<String>, name: &str) -> (r: bool)
    ensures
        r == views(names@).contains(name@),
{
    let mut i: usize = 0;
    while i < names.len()
        invariant
            i <= names@.len(),
            forall|k: int| 0 <= k < i ==> names@[k]@ != name@,
        decreases names.len() - i,
    {
        if str_eq(names[i].as_str(), name) {
            assert(views(names@)[i as int] == name@);
            return true;
        }
        i = i + 1;
    }
    assert(!views(names@).contains(name@)) by {
        if views(names@).contains(name@) {
            let k = choose|k: int| 0 <= k < views(names@).len() && views(names@)[k] == name@;
            assert(names@[k]@ == name@);
        }
    }
    false
}

/// The crate name adopted by merging `cs` in order into an unnamed context.
pub open spec fn first_root(cs: Seq<ProjectContext>) -> Seq<char>
    decreases cs.len(),
{
    if cs.len() == 0 {
        Seq::empty()
    } else {
        let prev = first_root(cs.drop_last());
        if prev.len() == 0 {
            cs.last().module_root@
        } else {
            prev
        }
    }
}

/// All module entries of `cs`, in order.
pub open spec fn all_modules(cs: Seq<ProjectContext>) -> Seq<ModuleInfoView>
    decreases cs.len(),
{
    if cs.len() == 0 {
        Seq::empty()
    } else {
        all_modules(cs.drop_last()) + module_views(cs.last().modules@)
    }
}

/// All trait entries of `cs`, in order.
pub open spec fn all_traits(cs: Seq<ProjectContext>) -> Seq<TraitInfoView>
    decreases cs.len(),
{
    if cs.len() == 0 {
        Seq::empty()
    } else {
        all_traits(cs.drop_last()) + trait_views(cs.last().traits@)
    }
}

/// The distinct crate names of `cs`, in order of first appearance.
pub open spec fn distinct_roots(cs: Seq<ProjectContext>) -> Seq<Seq<char>>
    decreases cs.len(),
{
    if cs.len() == 0 {
        Seq::empty()
    } else {
        let prev = distinct_roots(cs.drop_last());
        if prev.contains(cs.last().module_root@) {
            prev
        } else {
            prev.push(cs.last().module_root@)
        }
    }
}

proof fn lemma_views_multiset_modules(a: Seq<ModuleInfo>, b: Seq<ModuleInfo>)
    requires
        a.to_multiset() == b.to_multiset(),
    ensures
        module_views(a).to_multiset() == module_views(b).to_multiset(),
{
    crate::order::lemma_map_multiset(a, b, |m: ModuleInfo| m@);
}

proof fn lemma_views_multiset_traits(a: Seq<TraitInfo>, b: Seq<TraitInfo>)
    requires
        a.to_multiset() == b.to_multiset(),
    ensures
        trait_views(a).to_multiset() == trait_views(b).to_multiset(),
{
    crate::order::lemma_map_multiset(a, b, |t: TraitInfo| t@);
}

/// The name of a module entry.
pub open spec fn module_entry_name() -> spec_fn(ModuleInfoView) -> Seq<char> {
    |m: ModuleInfoView| m.name
}

/// The name of a trait entry.
pub open spec fn trait_entry_name() -> spec_fn(TraitInfoView) -> Seq<char> {
    |t: TraitInfoView| t.name
}

proof fn lemma_views_keep_order_modules(a: Seq<ModuleInfo>, b: Seq<ModuleInfo>)
    requires
        same_order_per_key(a, b, key_fn::<ModuleInfo>()),
    ensures
        same_order_per_key(module_views(a), module_views(b), module_entry_name()),
{
    let f = |m: ModuleInfo| m@;
    assert(module_views(a) =~= a.map_values(f));
    assert(module_views(b) =~= b.map_values(f));
    assert forall|x: ModuleInfo| #[trigger] module_entry_name()(f(x)) == key_fn::<ModuleInfo>()(x) by {}
    assert forall|k: Seq<char>| #[trigger] with_key(module_views(a), module_entry_name(), k) == with_key(
        module_views(b),
        module_entry_name(),
        k,
    ) by {
        lemma_with_key_map(a, f, key_fn::<ModuleInfo>(), module_entry_name(), k);
        lemma_with_key_map(b, f, key_fn::<ModuleInfo>(), module_entry_name(), k);
        assert(with_key(a, key_fn::<ModuleInfo>(), k) == with_key(b, key_fn::<ModuleInfo>(), k));
    }
}

proof fn lemma_views_keep_order_traits(a: Seq<TraitInfo>, b: Seq<TraitInfo>)
    requires
        same_order_per_key(a, b, key_fn::<TraitInfo>()),
    ensures
        same_order_per_key(trait_views(a), trait_views(b), trait_entry_name()),
{
    let f = |t: TraitInfo| t@;
    assert(trait_views(a) =~= a.map_values(f));
    assert(trait_views(b) =~= b.map_values(f));
    assert forall|x: TraitInfo| #[trigger] trait_entry_name()(f(x)) == key_fn::<TraitInfo>()(x) by {}
    assert forall|k: Seq<char>| #[trigger] with_key(trait_views(a), trait_entry_name(), k) == with_key(
        trait_views(b),
        trait_entry_name(),
        k,
    ) by {
        lemma_with_key_map(a, f, key_fn::<TraitInfo>(), trait_entry_name(), k);
        lemma_with_key_map(b, f, key_fn::<TraitInfo>(), trait_entry_name(), k);
        assert(with_key(a, key_fn::<TraitInfo>(), k) == with_key(b, key_fn::<TraitInfo>(), k));
    }
}

/// A copy of a string list, element by element.
pub fn copy_strings(v: &Vec<String>) -> (r: Vec<String>)
    ensures
        r@ == v@,
        views(r@) == views(v@),
{
    let mut out: Vec<String> = Vec::new();
    let mut i: usize = 0;
    while i < v.len()
        invariant
            i <= v@.len(),
            out@ =~= v@.take(i as int),
            views(out@) =~= views(v@).take(i as int),
        decreases v.len() - i,
    {
        let ghost before = out@;
        let c = v[i].clone();
        out.push(c);
        assert(views(out@) =~= views(before).push(v@[i as int]@));
        assert(views(v@).take(i + 1) =~= views(v@).take(i as int).push(v@[i as int]@));
        assert(v@.take(i + 1) =~= v@.take(i as int).push(v@[i as int]));
        i = i + 1;
    }
    assert(views(v@).take(v@.len() as int) =~= views(v@));
    assert(v@.take(v@.len() as int) =~= v@);
    out
}

/// A copy of a module entry.
pub fn copy_module(m: &ModuleInfo) -> (r: ModuleInfo)
    ensures
        r@ == m@,
{
    ModuleInfo { name: m.name.clone(), applicable_lints: copy_strings(&m.applicable_lints) }
}

/// A copy of a trait entry.
pub fn copy_trait(t: &TraitInfo) -> (r: TraitInfo)
    ensures
        r@ == t@,
{
    TraitInfo {
        name: t.name.clone(),
        implementors: copy_strings(&t.implementors),
        applicable_lints: copy_strings(&t.applicable_lints),
    }
}

/// Whether a file name is that of a context file.
pub fn is_context_file_name(name: &str) -> (r: bool)
    ensures
        r == seq_ends_with(name@, CONTEXT_FILE_SUFFIX@),
{
    str_ends_with(name, CONTEXT_FILE_SUFFIX)
}

} // verus!
