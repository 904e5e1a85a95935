//! The function lint: which functions a configured function lint selects, and
//! what it reports for the rules they break.
use vstd::prelude::*;
use vstd::string::*;
use crate::config::function_lint::{FunctionMatch, FunctionRule, ReturnTypePattern};
use crate::config::lint_builder::{ConfiguredLint, copy_function_match, copy_function_rules};
use crate::config::severity::Severity;
use crate::lints::call_graph::{
    CallGraph,
    Hazard,
    body_of,
    cache_clean,
    cache_sound,
    direct_hazard,
    has_mir,
    justified,
    keeps_answers,
    lemma_settled_kept,
    links_settled,
    reaches_hazard,
};
use crate::lints::finding::{Finding, FindingView, LintId, Site, finding_views};
use crate::lints::no_allocation::detect_allocation_in_mir;
use crate::lints::rule::ArchitectureLintRule;
use crate::pattern::{matches_or_equal, matches_or_false, pattern_matches, pattern_matches_or_equal};
use crate::lints::struct_lint::{has_pattern_chars, looks_like_pattern};
use crate::text::{
    decimal,
    occurs_at,
    seq_contains,
    seq_ends_with,
    str_contains,
    str_ends_with,
    str_eq,
    usize_to_decimal,
};

verus! {

/// How a function's return type relates to the `Self` type of its `impl`.
#[derive(Debug, Clone, Copy, PartialEq, Eq, Structural)]
pub enum SelfReturn {
    /// Not a method, or it returns something else.
    NotSelf,
    /// Returns `Self` by value.
    Value,
    /// Returns `&Self`.
    SharedRef,
    /// Returns `&mut Self`.
    MutRef,
}

/// What the function lint needs to know of a function.
#[derive(Debug)]
pub struct FunctionFacts {
    /// The function's name.
    pub name: String,
    /// The full path of the module that holds it.
    pub module: String,
    /// The path of the returned type's definition, when it is a struct, enum or union.
    pub return_adt_path: Option<String>,
    /// The returned type, written out.
    pub return_type: String,
    /// How many generic arguments the returned type has.
    pub return_arg_count: usize,
    /// The second generic argument of the returned type, written out, when there is one.
    pub error_type: String,
    /// Whether that second argument implements `std::error::Error`.
    pub error_implements_error: bool,
    pub self_return: SelfReturn,
    pub is_async: bool,
    /// How many lines the body spans, when the source map tells.
    pub body_lines: Option<usize>,
    /// The function's index in the call graph, when its MIR is available.
    pub mir: Option<usize>,
}

/// Whether the returned type is a `Result` with an error argument.
pub open spec fn returns_result_with_error(f: FunctionFacts) -> bool {
    f.return_adt_path matches Some(p) && seq_contains(p@, "result::Result"@) && f.return_arg_count >= 2
}

/// Whether `name` is what follows the last `::` of `path`.
pub open spec fn is_last_segment(path: Seq<char>, name: Seq<char>) -> bool {
    exists|i: int|
        0 <= i <= path.len() && (i == 0 || occurs_at(path, "::"@, i - 2)) && #[trigger] path.skip(i) == name
            && !seq_contains(name, "::"@)
}

/// Whether the returned type matches `pattern`.
pub open spec fn return_type_matches(pattern: ReturnTypePattern, f: FunctionFacts) -> bool {
    let ts = f.return_type@;
    match pattern {
        ReturnTypePattern::Result => match f.return_adt_path {
            Some(p) => seq_contains(p@, "result::Result"@),
            None => seq_contains(ts, "Result<"@),
        },
        ReturnTypePattern::ResultWithErrorImpl => returns_result_with_error(f) && f.error_implements_error,
        ReturnTypePattern::Option => match f.return_adt_path {
            Some(p) => seq_contains(p@, "option::Option"@),
            None => seq_contains(ts, "Option<"@),
        },
        ReturnTypePattern::Named(name) => {
            ||| (f.return_adt_path matches Some(p) && (seq_ends_with(p@, name@) || p@ == name@ || is_last_segment(
                p@,
                name@,
            )))
            ||| ts == name@
            ||| seq_ends_with(ts, name@)
        },
        ReturnTypePattern::Regex(p) => matches_or_false(p@, ts),
        ReturnTypePattern::SelfValue => f.self_return == SelfReturn::Value,
        ReturnTypePattern::SelfRef => f.self_return == SelfReturn::SharedRef,
        ReturnTypePattern::SelfMutRef => f.self_return == SelfReturn::MutRef,
    }
}

proof fn lemma_too_short(h: Seq<char>, x: Seq<char>)
    requires
        h.len() < x.len(),
    ensures
        !seq_contains(h, x),
{
}

/// Which return types the return-type patterns select. A function whose
/// returned type resolves to an ADT is selected by `returns_option` when the
/// ADT's path names `option::Option` (e.g. `core::option::Option`), by
/// `returns_result` when it names `result::Result`, and by `returns_result`
/// with an error type when it also has an error argument that implements
/// `Error`; an ADT path too short to name them is selected by neither. A type
/// that resolves to no ADT is judged by its written form (`Option<..>`,
/// `Result<..>`). A named type is selected when the ADT path or the written
/// type ends with the name.
pub proof fn lemma_return_type_patterns(f: FunctionFacts, pre: Seq<char>, post: Seq<char>, name: String)
    ensures
        f.return_adt_path matches Some(p) && p@ == pre + "option::Option"@ + post ==> return_type_matches(
            ReturnTypePattern::Option,
            f,
        ),
        f.return_adt_path matches Some(p) && p@ == pre + "result::Result"@ + post ==> return_type_matches(
            ReturnTypePattern::Result,
            f,
        ),
        f.return_adt_path matches Some(p) && p@ == pre + "result::Result"@ + post && f.return_arg_count >= 2
            && f.error_implements_error ==> return_type_matches(ReturnTypePattern::ResultWithErrorImpl, f),
        f.return_adt_path matches Some(p) && p@.len() < 14 ==> !return_type_matches(ReturnTypePattern::Option, f)
            && !return_type_matches(ReturnTypePattern::Result, f) && !return_type_matches(
            ReturnTypePattern::ResultWithErrorImpl,
            f,
        ),
        f.return_adt_path is None ==> !return_type_matches(ReturnTypePattern::ResultWithErrorImpl, f),
        f.return_adt_path is None && f.return_type@ == pre + "Option<"@ + post ==> return_type_matches(
            ReturnTypePattern::Option,
            f,
        ),
        f.return_adt_path is None && f.return_type@ == pre + "Result<"@ + post ==> return_type_matches(
            ReturnTypePattern::Result,
            f,
        ),
        f.return_adt_path matches Some(p) && p@ == pre + name@ ==> return_type_matches(
            ReturnTypePattern::Named(name),
            f,
        ),
        f.return_type@ == pre + name@ ==> return_type_matches(ReturnTypePattern::Named(name), f),
{
    crate::text::lemma_contains_concat(pre, "option::Option"@, post);
    crate::text::lemma_contains_concat(pre, "result::Result"@, post);
    crate::text::lemma_contains_concat(pre, "Option<"@, post);
    crate::text::lemma_contains_concat(pre, "Result<"@, post);
    assert("option::Option"@.len() == 14) by {
        reveal_strlit("option::Option");
    }
    assert("result::Result"@.len() == 14) by {
        reveal_strlit("result::Result");
    }
    if let Some(p) = f.return_adt_path {
        if p@.len() < 14 {
            lemma_too_short(p@, "option::Option"@);
            lemma_too_short(p@, "result::Result"@);
        }
        if p@ == pre + name@ {
            assert(p@.subrange(p@.len() - name@.len(), p@.len() as int) =~= name@);
        }
    }
    if f.return_type@ == pre + name@ {
        assert(f.return_type@.subrange(f.return_type@.len() - name@.len(), f.return_type@.len() as int) =~= name@);
    }
}

/// Whether module path `module` is selected by `p`: a path without regular
/// expression characters names exactly one module; otherwise `p` is a regular
/// expression (and, if it does not compile, names the module equal to it).
pub open spec fn module_path_matches(p: Seq<char>, module: Seq<char>) -> bool {
    if looks_like_pattern(p) {
        matches_or_equal(p, module)
    } else {
        module == p
    }
}

/// Whether the function satisfies matcher `m`.
pub open spec fn function_match_holds(m: FunctionMatch, f: FunctionFacts) -> bool
    decreases m,
{
    match m {
        FunctionMatch::NameEquals(n) => f.name@ == n@,
        FunctionMatch::NameRegex(p) => matches_or_false(p@, f.name@),
        FunctionMatch::InModule(p) => module_path_matches(p@, f.module@),
        FunctionMatch::ReturnsType(pattern) => return_type_matches(pattern, f),
        FunctionMatch::IsAsync => f.is_async,
        FunctionMatch::AndMatches(l, r) => function_match_holds(*l, f) && function_match_holds(*r, f),
        FunctionMatch::OrMatches(l, r) => function_match_holds(*l, f) || function_match_holds(*r, f),
        FunctionMatch::NotMatch(i) => !function_match_holds(*i, f),
    }
}

proof fn lemma_last_segment_is_suffix(path: Seq<char>, name: Seq<char>)
    requires
        is_last_segment(path, name),
    ensures
        seq_ends_with(path, name),
{
    let i = choose|i: int|
        0 <= i <= path.len() && (i == 0 || occurs_at(path, "::"@, i - 2)) && #[trigger] path.skip(i) == name
            && !seq_contains(name, "::"@);
    assert(path.subrange(path.len() - name.len(), path.len() as int) =~= path.skip(i));
}

/// Whether the returned type matches `pattern`.
pub fn evaluate_return_type(pattern: &ReturnTypePattern, facts: &FunctionFacts) -> (r: bool)
    ensures
        r == return_type_matches(*pattern, *facts),
{
    let ts = facts.return_type.as_str();
    match pattern {
        ReturnTypePattern::Result => match &facts.return_adt_path {
            Some(p) => str_contains(p.as_str(), "result::Result"),
            None => str_contains(ts, "Result<"),
        },
        ReturnTypePattern::ResultWithErrorImpl => {
            let is_result = match &facts.return_adt_path {
                Some(p) => str_contains(p.as_str(), "result::Result") && facts.return_arg_count >= 2,
                None => false,
            };
            is_result && facts.error_implements_error
        },
        ReturnTypePattern::Option => match &facts.return_adt_path {
            Some(p) => str_contains(p.as_str(), "option::Option"),
            None => str_contains(ts, "Option<"),
        },
        ReturnTypePattern::Named(name) => {
            let by_path = match &facts.return_adt_path {
                Some(p) => {
                    proof {
                        if is_last_segment(p@, name@) {
                            lemma_last_segment_is_suffix(p@, name@);
                        }
                    }
                    str_ends_with(p.as_str(), name.as_str()) || str_eq(p.as_str(), name.as_str())
                },
                None => false,
            };
            by_path || str_eq(ts, name.as_str()) || str_ends_with(ts, name.as_str())
        },
        ReturnTypePattern::Regex(p) => pattern_matches(p.as_str(), ts),
        ReturnTypePattern::SelfValue => facts.self_return == SelfReturn::Value,
        ReturnTypePattern::SelfRef => facts.self_return == SelfReturn::SharedRef,
        ReturnTypePattern::SelfMutRef => facts.self_return == SelfReturn::MutRef,
    }
}

/// Whether the function described by `facts` satisfies `matcher`.
pub fn evaluate_function_match(matcher: &FunctionMatch, facts: &FunctionFacts) -> (r: bool)
    ensures
        r == function_match_holds(*matcher, *facts),
    decreases matcher,
{
    match matcher {
        FunctionMatch::NameEquals(name) => str_eq(facts.name.as_str(), name.as_str()),
        FunctionMatch::NameRegex(pattern) => pattern_matches(pattern.as_str(), facts.name.as_str()),
        FunctionMatch::InModule(pattern) => if has_pattern_chars(pattern.as_str()) {
            pattern_matches_or_equal(pattern.as_str(), facts.module.as_str())
        } else {
            str_eq(facts.module.as_str(), pattern.as_str())
        },
        FunctionMatch::ReturnsType(pattern) => evaluate_return_type(pattern, facts),
        FunctionMatch::IsAsync => facts.is_async,
        FunctionMatch::AndMatches(left, right) => evaluate_function_match(left, facts) && evaluate_function_match(
            right,
            facts,
        ),
        FunctionMatch::OrMatches(left, right) => evaluate_function_match(left, facts) || evaluate_function_match(
            right,
            facts,
        ),
        FunctionMatch::NotMatch(inner) => !evaluate_function_match(inner, facts),
    }
}

/// A finding of the function lint.
pub open spec fn function_finding(sev: Severity, site: Site, message: Seq<char>, help: Seq<char>) -> FindingView {
    FindingView { lint: LintId::FunctionLint, severity: sev, site, message, help }
}

/// The start of the message about an allocation.
pub open spec fn allocation_prefix() -> Seq<char> {
    "Function allocates heap memory: "@
}

/// A report of an allocation in function `id`: at a terminator of its body,
/// with no call before it that allocates by itself, for a reason that is
/// justified.
pub open spec fn allocation_report(x: FindingView, sev: Severity, g: CallGraph, id: int) -> bool {
    &&& x.lint == LintId::FunctionLint
    &&& x.severity == sev
    &&& x.help == "Remove heap allocations to satisfy the NoAllocation rule"@
    &&& x.site matches Site::Body(site) && site < body_of(g, id).len() && (forall|k: int|
        0 <= k < site ==> !direct_hazard(#[trigger] body_of(g, id)[k], Hazard::Allocation)) && exists|reason: Seq<char>|
        x.message == allocation_prefix() + reason && #[trigger] justified(
            g,
            body_of(g, id)[site as int],
            Hazard::Allocation,
            reason,
        )
}

/// Whether `part` is what `rule` may report for the function: exactly the
/// report the rule calls for, except that for the no-allocation rule, whose
/// answer depends on what the walk has remembered, it is either nothing (and
/// then no call of the body is by itself allocating, and every function the
/// body calls or passes on is remembered in `c` as not allocating) or one
/// justified report (every function called or passed on before it being
/// remembered as not allocating).
pub open spec fn function_rule_findings_ok(
    rule: FunctionRule,
    f: FunctionFacts,
    g: CallGraph,
    c: Seq<Option<bool>>,
    part: Seq<FindingView>,
) -> bool {
    match rule {
        FunctionRule::MaxLength(max, sev) => part == match f.body_lines {
            Some(n) => if n > max {
                seq![
                    function_finding(
                        sev,
                        Site::Item,
                        "Function exceeds maximum length of "@ + decimal(max as nat) + " lines with "@ + decimal(
                            n as nat,
                        ) + " lines"@,
                        "Consider breaking this function into smaller parts"@,
                    ),
                ]
            } else {
                Seq::empty()
            },
            None => Seq::empty(),
        },
        FunctionRule::ResultErrorMustImplementError(sev) => part == if returns_result_with_error(f)
            && !f.error_implements_error {
            seq![
                function_finding(
                    sev,
                    Site::Item,
                    "Error type '"@ + f.error_type@ + "' in Result does not implement Error trait"@,
                    "Consider implementing the Error trait for this type or using a type that already implements it"@,
                ),
            ]
        } else {
            Seq::empty()
        },
        FunctionRule::MustNotExist(sev) => part == seq![
            function_finding(
                sev,
                Site::Item,
                "Function '"@ + f.name@ + "' is forbidden by lint rule"@,
                "Remove this function to satisfy the architectural rule"@,
            ),
        ],
        FunctionRule::NoAllocation(sev) => match f.mir {
            Some(id) => if has_mir(g, id as int) {
                ||| part.len() == 0 && forall|k: int|
                    0 <= k < body_of(g, id as int).len() ==> !direct_hazard(
                        #[trigger] body_of(g, id as int)[k],
                        Hazard::Allocation,
                    ) && links_settled(g, body_of(g, id as int)[k], c)
                ||| part.len() == 1 && allocation_report(part[0], sev, g, id as int) && (part[0].site matches Site::Body(
                    site,
                ) && forall|k: int| 0 <= k < site ==> links_settled(g, #[trigger] body_of(g, id as int)[k], c))
            } else {
                part.len() == 0
            },
            None => part.len() == 0,
        },
    }
}

/// Which functions the simple matchers select: a name selects exactly the
/// function of that name; a module path without regular expression characters
/// selects exactly the functions of that module, and no function of a module
/// nested in it or named longer; `is_async` selects exactly async functions;
/// a negation selects exactly what its matcher does not.
pub proof fn lemma_function_matchers(f: FunctionFacts, n: String, inner: FunctionMatch)
    ensures
        function_match_holds(FunctionMatch::NameEquals(n), f) <==> f.name@ == n@,
        !looks_like_pattern(n@) ==> (function_match_holds(FunctionMatch::InModule(n), f) <==> f.module@ == n@),
        !looks_like_pattern(n@) && f.module@.len() != n@.len() ==> !function_match_holds(
            FunctionMatch::InModule(n),
            f,
        ),
        function_match_holds(FunctionMatch::IsAsync, f) <==> f.is_async,
        function_match_holds(FunctionMatch::NotMatch(Box::new(inner)), f) <==> !function_match_holds(inner, f),
{
}

/// What the function rules report. A maximum length is broken, once, exactly
/// by a body of more lines than the maximum, and the report gives both counts;
/// a function that must not exist is always reported, by name; a function
/// returning a `Result` (an ADT whose path names `result::Result`, with an
/// error argument) whose error type does not implement `Error` is reported,
/// naming the error type, and a function returning no ADT, or whose error type
/// implements `Error`, is not.
pub proof fn lemma_function_rules(
    f: FunctionFacts,
    g: CallGraph,
    c: Seq<Option<bool>>,
    part: Seq<FindingView>,
    max: usize,
    sev: Severity,
    pre: Seq<char>,
    post: Seq<char>,
)
    ensures
        function_rule_findings_ok(FunctionRule::MaxLength(max, sev), f, g, c, part) ==> part.len() == (if f.body_lines
            matches Some(n) && n > max {
            1int
        } else {
            0int
        }),
        f.body_lines matches Some(n) && n > max && function_rule_findings_ok(
            FunctionRule::MaxLength(max, sev),
            f,
            g,
            c,
            part,
        ) ==> part[0].message == "Function exceeds maximum length of "@ + decimal(max as nat)
            + " lines with "@ + decimal(f.body_lines.unwrap() as nat) + " lines"@ && part[0].severity == sev,
        function_rule_findings_ok(FunctionRule::MustNotExist(sev), f, g, c, part) ==> part.len() == 1
            && part[0].message == "Function '"@ + f.name@ + "' is forbidden by lint rule"@,
        function_rule_findings_ok(FunctionRule::ResultErrorMustImplementError(sev), f, g, c, part) && (
        f.return_adt_path is None || f.error_implements_error) ==> part.len() == 0,
        f.return_adt_path matches Some(p) && p@ == pre + "result::Result"@ + post && f.return_arg_count >= 2
            && !f.error_implements_error && function_rule_findings_ok(
            FunctionRule::ResultErrorMustImplementError(sev),
            f,
            g,
            c,
            part,
        ) ==> part.len() == 1 && part[0].message == "Error type '"@ + f.error_type@
            + "' in Result does not implement Error trait"@,
{
    crate::text::lemma_contains_concat(pre, "result::Result"@, post);
}

/// How checking `rule` changes the allocation walk's memory from `c0` to `c1`:
/// only the no-allocation rule, on a function with a body, uses it; it keeps
/// what was remembered, and when every negative answer in `c0` is backed by a
/// finished walk (`cache_clean`), the rule reports nothing exactly when the
/// function does not allocate, directly or through what it calls or passes on,
/// and then `c1` is so too.
pub open spec fn rule_cache_step(
    rule: FunctionRule,
    f: FunctionFacts,
    g: CallGraph,
    c0: Seq<Option<bool>>,
    c1: Seq<Option<bool>>,
    part: Seq<FindingView>,
) -> bool {
    if rule is NoAllocation && f.mir is Some && has_mir(g, f.mir.unwrap() as int) {
        &&& keeps_answers(c0, c1)
        &&& cache_clean(g, Hazard::Allocation, c0) ==> {
            &&& (part.len() == 0 <==> !reaches_hazard(g, f.mir.unwrap() as int, Hazard::Allocation))
            &&& part.len() == 0 ==> cache_clean(g, Hazard::Allocation, c1)
        }
    } else {
        c1 == c0
    }
}

/// The walk's memory extended with nothing remembered up to `n` functions.
pub open spec fn padded(c: Seq<Option<bool>>, n: nat) -> Seq<Option<bool>> {
    c + Seq::new((n - c.len()) as nat, |i: int| None::<bool>)
}

/// What a rule may report stays so while the walk keeps what it remembered.
proof fn lemma_rule_findings_kept(
    rule: FunctionRule,
    f: FunctionFacts,
    g: CallGraph,
    c1: Seq<Option<bool>>,
    c2: Seq<Option<bool>>,
    part: Seq<FindingView>,
)
    requires
        c1.len() == g.bodies@.len(),
        keeps_answers(c1, c2),
        function_rule_findings_ok(rule, f, g, c1, part),
    ensures
        function_rule_findings_ok(rule, f, g, c2, part),
{
    if let FunctionRule::NoAllocation(sev) = rule {
        if let Some(id) = f.mir {
            if has_mir(g, id as int) {
                let body = body_of(g, id as int);
                if part.len() == 0 {
                    lemma_settled_kept(g, body, body.len() as int, c1, c2);
                } else {
                    if let Site::Body(site) = part[0].site {
                        lemma_settled_kept(g, body, site as int, c1, c2);
                    }
                }
            }
        }
    }
}

/// The concatenation of a list of finding lists.
pub open spec fn concat_parts(parts: Seq<Seq<FindingView>>) -> Seq<FindingView>
    decreases parts.len(),
{
    if parts.len() == 0 {
        Seq::empty()
    } else {
        concat_parts(parts.drop_last()) + parts.last()
    }
}

/// Whether `out` is, rule after rule, what each rule may report.
pub open spec fn function_findings_ok(
    rules: Seq<FunctionRule>,
    f: FunctionFacts,
    g: CallGraph,
    start: Seq<Option<bool>>,
    c: Seq<Option<bool>>,
    out: Seq<FindingView>,
) -> bool {
    exists|parts: Seq<Seq<FindingView>>, caches: Seq<Seq<Option<bool>>>|
        parts.len() == rules.len() && caches.len() == rules.len() + 1 && caches[0] == start && (forall|i: int|
            0 <= i < rules.len() ==> #[trigger] function_rule_findings_ok(rules[i], f, g, c, parts[i])
                && rule_cache_step(rules[i], f, g, caches[i], caches[i + 1], parts[i])) && concat_parts(parts)
            == out
}

/// A configured function lint, ready to check functions; it remembers what it
/// learns of which functions allocate.
#[derive(Debug)]
pub struct FunctionLint {
    pub name: String,
    pub matches: FunctionMatch,
    pub function_rules: Vec<FunctionRule>,
    /// For each function of the call graph, whether it allocates, once known.
    pub allocation_cache: Vec<Option<bool>>,
}

fn function_report(severity: Severity, site: Site, message: String, help: &str) -> (r: Finding)
    ensures
        r@ == function_finding(severity, site, message@, help@),
{
    Finding { lint: LintId::FunctionLint, severity, site, message, help: String::from_str(help) }
}

impl FunctionLint {
    /// The function lint configured by `config`, which must be a function lint;
    /// it starts knowing nothing of allocations.
    pub fn new(config: &ConfiguredLint) -> (r: FunctionLint)
        requires
            config is Function,
        ensures
            config matches ConfiguredLint::Function(f) && r.name == f.name && r.matches == f.matches
                && r.function_rules@ == f.rules@,
            r.allocation_cache@.len() == 0,
    {
        match config {
            ConfiguredLint::Function(f) => FunctionLint {
                name: f.name.clone(),
                matches: copy_function_match(&f.matches),
                function_rules: copy_function_rules(&f.rules),
                allocation_cache: Vec::new(),
            },
            _ => FunctionLint {
                name: String::new(),
                matches: FunctionMatch::IsAsync,
                function_rules: Vec::new(),
                allocation_cache: Vec::new(),
            },
        }
    }

    /// Whether the lint selects the function described by `facts`.
    pub fn matches_function(&self, facts: &FunctionFacts) -> (r: bool)
        ensures
            r == function_match_holds(self.matches, *facts),
    {
        evaluate_function_match(&self.matches, facts)
    }

    fn rule_findings(&mut self, rule: FunctionRule, facts: &FunctionFacts, graph: &CallGraph) -> (r: Vec<Finding>)
        requires
            old(self).allocation_cache@.len() == graph.bodies@.len(),
            cache_sound(*graph, Hazard::Allocation, old(self).allocation_cache@),
        ensures
            final(self).allocation_cache@.len() == graph.bodies@.len(),
            cache_sound(*graph, Hazard::Allocation, final(self).allocation_cache@),
            final(self).name == old(self).name,
            final(self).matches == old(self).matches,
            final(self).function_rules == old(self).function_rules,
            keeps_answers(old(self).allocation_cache@, final(self).allocation_cache@),
            function_rule_findings_ok(rule, *facts, *graph, final(self).allocation_cache@, finding_views(r@)),
            rule_cache_step(
                rule,
                *facts,
                *graph,
                old(self).allocation_cache@,
                final(self).allocation_cache@,
                finding_views(r@),
            ),
    {
        let mut out: Vec<Finding> = Vec::new();
        match rule {
            FunctionRule::MaxLength(max_lines, severity) => {
                if let Some(n) = facts.body_lines {
                    if n > max_lines {
                        let mut message = String::from_str("Function exceeds maximum length of ");
                        let max_text = usize_to_decimal(max_lines);
                        message.append(max_text.as_str());
                        message.append(" lines with ");
                        let n_text = usize_to_decimal(n);
                        message.append(n_text.as_str());
                        message.append(" lines");
                        out.push(
                            function_report(
                                severity,
                                Site::Item,
                                message,
                                "Consider breaking this function into smaller parts",
                            ),
                        );
                    }
                }
            },
            FunctionRule::ResultErrorMustImplementError(severity) => {
                let is_result = match &facts.return_adt_path {
                    Some(p) => str_contains(p.as_str(), "result::Result") && facts.return_arg_count >= 2,
                    None => false,
                };
                if is_result && !facts.error_implements_error {
                    let mut message = String::from_str("Error type '");
                    message.append(facts.error_type.as_str());
                    message.append("' in Result does not implement Error trait");
                    out.push(
                        function_report(
                            severity,
                            Site::Item,
                            message,
                            "Consider implementing the Error trait for this type or using a type that already implements it",
                        ),
                    );
                }
            },
            FunctionRule::MustNotExist(severity) => {
                let mut message = String::from_str("Function '");
                message.append(facts.name.as_str());
                message.append("' is forbidden by lint rule");
                out.push(
                    function_report(
                        severity,
                        Site::Item,
                        message,
                        "Remove this function to satisfy the architectural rule",
                    ),
                );
            },
            FunctionRule::NoAllocation(severity) => {
                if let Some(id) = facts.mir {
                    if id < graph.bodies.len() && graph.bodies[id].is_some() {
                        let found = detect_allocation_in_mir(graph, id, &mut self.allocation_cache);
                        if let Some(v) = found {
                            let mut message = String::from_str("Function allocates heap memory: ");
                            message.append(v.reason.as_str());
                            let f = function_report(
                                severity,
                                Site::Body(v.site),
                                message,
                                "Remove heap allocations to satisfy the NoAllocation rule",
                            );
                            out.push(f);
                            assert(finding_views(out@)[0] == f@);
                            assert(f@.message == allocation_prefix() + v.reason@);
                            assert(allocation_report(f@, severity, *graph, id as int));
                        }
                    }
                }
            },
        }
        proof {
            if out@.len() == 0 {
                assert(finding_views(out@) =~= Seq::<FindingView>::empty());
            } else {
                assert(out@.len() == 1);
                assert(finding_views(out@) =~= seq![out@[0]@]);
            }
        }
        out
    }

    /// What the lint reports for the function described by `facts`: nothing
    /// when it does not select the function; else, rule after rule, what each
    /// rule may report (see `function_rule_findings_ok`), the allocation walk's
    /// memory going from rule to rule as `rule_cache_step` says, starting from
    /// what was remembered, extended to every function of `graph`. What it
    /// learns of allocations stays true of `graph`.
    pub fn check_function(&mut self, facts: &FunctionFacts, graph: &CallGraph) -> (r: Vec<Finding>)
        requires
            old(self).allocation_cache@.len() <= graph.bodies@.len(),
            cache_sound(*graph, Hazard::Allocation, old(self).allocation_cache@),
        ensures
            final(self).allocation_cache@.len() == graph.bodies@.len(),
            cache_sound(*graph, Hazard::Allocation, final(self).allocation_cache@),
            final(self).name == old(self).name,
            final(self).matches == old(self).matches,
            final(self).function_rules == old(self).function_rules,
            !function_match_holds(old(self).matches, *facts) ==> r@.len() == 0,
            function_match_holds(old(self).matches, *facts) ==> function_findings_ok(
                old(self).function_rules@,
                *facts,
                *graph,
                padded(old(self).allocation_cache@, graph.bodies@.len()),
                final(self).allocation_cache@,
                finding_views(r@),
            ),
    {
        while self.allocation_cache.len() < graph.bodies.len()
            invariant
                self.allocation_cache@.len() <= graph.bodies@.len(),
                self.allocation_cache@ == padded(old(self).allocation_cache@, self.allocation_cache@.len()),
                cache_sound(*graph, Hazard::Allocation, self.allocation_cache@),
                self.name == old(self).name,
                self.matches == old(self).matches,
                self.function_rules == old(self).function_rules,
            decreases graph.bodies.len() - self.allocation_cache.len(),
        {
            let ghost before = self.allocation_cache@;
            self.allocation_cache.push(None);
            assert(self.allocation_cache@ =~= padded(old(self).allocation_cache@, self.allocation_cache@.len()));
        }
        let ghost start = self.allocation_cache@;
        assert(start == padded(old(self).allocation_cache@, graph.bodies@.len()));
        let mut out: Vec<Finding> = Vec::new();
        if !self.matches_function(facts) {
            return out;
        }
        let ghost rules = self.function_rules@;
        let ghost mut parts: Seq<Seq<FindingView>> = Seq::empty();
        let ghost mut caches: Seq<Seq<Option<bool>>> = seq![start];
        let n = self.function_rules.len();
        let mut i: usize = 0;
        while i < n
            invariant
                n == rules.len(),
                rules == self.function_rules@,
                rules == old(self).function_rules@,
                self.name == old(self).name,
                self.matches == old(self).matches,
                self.function_rules == old(self).function_rules,
                self.allocation_cache@.len() == graph.bodies@.len(),
                cache_sound(*graph, Hazard::Allocation, self.allocation_cache@),
                i <= n,
                parts.len() == i,
                caches.len() == i + 1,
                caches[0] == start,
                caches[i as int] == self.allocation_cache@,
                forall|j: int|
                    0 <= j < i ==> #[trigger] function_rule_findings_ok(
                        rules[j],
                        *facts,
                        *graph,
                        self.allocation_cache@,
                        parts[j],
                    ) && rule_cache_step(rules[j], *facts, *graph, caches[j], caches[j + 1], parts[j]),
                finding_views(out@) == concat_parts(parts),
            decreases n - i,
        {
            let rule = self.function_rules[i];
            let ghost cache_before = self.allocation_cache@;
            let mut found = self.rule_findings(rule, facts, graph);
            proof {
                assert forall|j: int| 0 <= j < i implies #[trigger] function_rule_findings_ok(
                    rules[j],
                    *facts,
                    *graph,
                    self.allocation_cache@,
                    parts[j],
                ) && rule_cache_step(rules[j], *facts, *graph, caches[j], caches[j + 1], parts[j]) by {
                    lemma_rule_findings_kept(rules[j], *facts, *graph, cache_before, self.allocation_cache@, parts[j]);
                }
            }
            let ghost part = finding_views(found@);
            let ghost before = finding_views(out@);
            out.append(&mut found);
            proof {
                assert(finding_views(out@) =~= before + part);
                let next = parts.push(part);
                assert(next.drop_last() =~= parts);
                let next_caches = caches.push(self.allocation_cache@);
                assert forall|j: int| 0 <= j <= i implies #[trigger] function_rule_findings_ok(
                    rules[j],
                    *facts,
                    *graph,
                    self.allocation_cache@,
                    next[j],
                ) && rule_cache_step(rules[j], *facts, *graph, next_caches[j], next_caches[j + 1], next[j]) by {
                    if j < i {
                        assert(next[j] == parts[j]);
                        assert(next_caches[j] == caches[j]);
                        assert(next_caches[j + 1] == caches[j + 1]);
                    } else {
                        assert(next_caches[j] == cache_before);
                    }
                }
                parts = next;
                caches = next_caches;
            }
            i = i + 1;
        }
        assert(function_findings_ok(rules, *facts, *graph, start, self.allocation_cache@, finding_views(out@))) by {
            assert(forall|j: int|
                0 <= j < rules.len() ==> #[trigger] function_rule_findings_ok(
                    rules[j],
                    *facts,
                    *graph,
                    self.allocation_cache@,
                    parts[j],
                ) && rule_cache_step(rules[j], *facts, *graph, caches[j], caches[j + 1], parts[j]));
        }
        out
    }
}

impl ArchitectureLintRule for FunctionLint {
    fn name(&self) -> (r: String)
        ensures
            r@ == self.name@,
    {
        self.name.clone()
    }

    /// Function lints constrain no module.
    fn applies_to_module(&self, namespace: &str) -> (r: bool)
        ensures
            !r,
    {
        false
    }

    /// Function lints constrain no trait.
    fn applies_to_trait(&self, trait_path: &str) -> (r: bool)
        ensures
            !r,
    {
        false
    }
}

} // verus!
