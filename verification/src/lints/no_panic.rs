//! Which called functions may panic, by the path of the callee.
use vstd::prelude::*;
use crate::lints::call_graph::{CallGraph, Hazard, body_of, cache_clean, lemma_justified_reaches, reaches_hazard, cache_sound, detect_hazard, direct_hazard, has_mir, justified};
use crate::text::{lemma_contains_concat, lemma_contains_within, lemma_ends_with_concat, seq_contains, seq_ends_with, str_contains, str_ends_with};

verus! {

/// The kinds of panic the no-panic analysis tells apart. A MIR body does not
/// tell `panic!`, `unreachable!`, `unimplemented!`, `todo!` and `assert!`
/// apart: they all count as explicit panics.
#[derive(Debug, Clone, Copy, PartialEq, Eq, Structural, Hash)]
pub enum PanicCategory {
    /// `unwrap` or `expect` on an `Option` or `Result`.
    Unwrap,
    /// The panic-family macros.
    ExplicitPanic,
    /// Index bounds checks.
    IndexBounds,
}

/// `path` names an `Option` method.
pub open spec fn on_option(path: Seq<char>) -> bool {
    seq_contains(path, "Option::<"@) || seq_contains(path, "::Option::"@)
}

/// `path` names a `Result` method.
pub open spec fn on_result(path: Seq<char>) -> bool {
    seq_contains(path, "Result::<"@) || seq_contains(path, "::Result::"@)
}

/// `path` names an `unwrap`-like method of an `Option`.
pub open spec fn is_option_unwrap(path: Seq<char>) -> bool {
    on_option(path) && (seq_ends_with(path, ">::unwrap"@) || seq_ends_with(path, ">::expect"@))
}

/// `path` names an `unwrap`-like method of a `Result`.
pub open spec fn is_result_unwrap(path: Seq<char>) -> bool {
    on_result(path) && (seq_ends_with(path, ">::unwrap"@) || seq_ends_with(path, ">::expect"@) || seq_ends_with(
        path,
        ">::unwrap_err"@,
    ) || seq_ends_with(path, ">::expect_err"@))
}

/// `path` names a slice index failure function.
pub open spec fn is_index_failure(path: Seq<char>) -> bool {
    seq_contains(path, "slice_index"@) || seq_contains(path, "index_len_fail"@) || seq_contains(
        path,
        "slice_start_index"@,
    ) || seq_contains(path, "slice_end_index"@)
}

/// `path` names a function of the panic machinery.
pub open spec fn is_panic_machinery(path: Seq<char>) -> bool {
    seq_contains(path, "core::panicking::"@) || seq_contains(path, "std::panicking::"@) || seq_contains(
        path,
        "begin_panic"@,
    ) || seq_contains(path, "panic_fmt"@) || seq_contains(path, "unreachable"@) || seq_contains(
        path,
        "assert_failed"@,
    )
}

/// The kind of panic a call of the function at `path` stands for, if any; the
/// first test that applies decides.
pub open spec fn panic_category_of(path: Seq<char>) -> Option<PanicCategory> {
    if is_option_unwrap(path) || is_result_unwrap(path) {
        Some(PanicCategory::Unwrap)
    } else if is_index_failure(path) {
        Some(PanicCategory::IndexBounds)
    } else if is_panic_machinery(path) {
        Some(PanicCategory::ExplicitPanic)
    } else {
        None
    }
}

/// The kind of panic a call of the function at `path` stands for, if any.
pub fn classify_panic_source(path: &str) -> (r: Option<PanicCategory>)
    ensures
        r == panic_category_of(path@),
{
    let option_unwrap = (str_contains(path, "Option::<") || str_contains(path, "::Option::")) && (str_ends_with(
        path,
        ">::unwrap",
    ) || str_ends_with(path, ">::expect"));
    if option_unwrap {
        return Some(PanicCategory::Unwrap);
    }
    let result_unwrap = (str_contains(path, "Result::<") || str_contains(path, "::Result::")) && (str_ends_with(
        path,
        ">::unwrap",
    ) || str_ends_with(path, ">::expect") || str_ends_with(path, ">::unwrap_err") || str_ends_with(
        path,
        ">::expect_err",
    ));
    if result_unwrap {
        return Some(PanicCategory::Unwrap);
    }
    if str_contains(path, "slice_index") || str_contains(path, "index_len_fail") || str_contains(
        path,
        "slice_start_index",
    ) || str_contains(path, "slice_end_index") {
        return Some(PanicCategory::IndexBounds);
    }
    if str_contains(path, "core::panicking::") || str_contains(path, "std::panicking::") || str_contains(
        path,
        "begin_panic",
    ) || str_contains(path, "panic_fmt") || str_contains(path, "unreachable") || str_contains(
        path,
        "assert_failed",
    ) {
        return Some(PanicCategory::ExplicitPanic);
    }
    None
}

/// Which called functions are panic sources. `unwrap` and `expect` (and, on a
/// `Result`, `unwrap_err` and `expect_err`) of an `Option` or `Result` are
/// unwraps; when the path names neither `Option` nor `Result`, a slice index
/// failure function is an index-bounds panic; a function of the panic
/// machinery (`core::panicking::`, `std::panicking::`, `begin_panic`,
/// `panic_fmt`, `unreachable`, `assert_failed`) is always a panic source; and
/// a path that names none of these is not a panic source.
pub proof fn lemma_panic_sources(p: Seq<char>, pre: Seq<char>, mid: Seq<char>)
    ensures
        p == pre + "Option::<"@ + mid + ">::unwrap"@ ==> panic_category_of(p) == Some(PanicCategory::Unwrap),
        p == pre + "Option::<"@ + mid + ">::expect"@ ==> panic_category_of(p) == Some(PanicCategory::Unwrap),
        p == pre + "Result::<"@ + mid + ">::unwrap"@ ==> panic_category_of(p) == Some(PanicCategory::Unwrap),
        p == pre + "Result::<"@ + mid + ">::expect"@ ==> panic_category_of(p) == Some(PanicCategory::Unwrap),
        p == pre + "Result::<"@ + mid + ">::unwrap_err"@ ==> panic_category_of(p) == Some(PanicCategory::Unwrap),
        p == pre + "Result::<"@ + mid + ">::expect_err"@ ==> panic_category_of(p) == Some(PanicCategory::Unwrap),
        !seq_contains(p, "Option"@) && !seq_contains(p, "Result"@) && (seq_contains(p, "slice_index"@)
            || seq_contains(p, "index_len_fail"@) || seq_contains(p, "slice_start_index"@) || seq_contains(
            p,
            "slice_end_index"@,
        )) ==> panic_category_of(p) == Some(PanicCategory::IndexBounds),
        seq_contains(p, "core::panicking::"@) || seq_contains(p, "std::panicking::"@) || seq_contains(
            p,
            "begin_panic"@,
        ) || seq_contains(p, "panic_fmt"@) || seq_contains(p, "unreachable"@) || seq_contains(p, "assert_failed"@)
            ==> panic_category_of(p) is Some,
        !seq_contains(p, "Option"@) && !seq_contains(p, "Result"@) && !seq_contains(p, "slice_index"@)
            && !seq_contains(p, "index_len_fail"@) && !seq_contains(p, "slice_start_index"@) && !seq_contains(
            p,
            "slice_end_index"@,
        ) && !seq_contains(p, "core::panicking::"@) && !seq_contains(p, "std::panicking::"@) && !seq_contains(
            p,
            "begin_panic"@,
        ) && !seq_contains(p, "panic_fmt"@) && !seq_contains(p, "unreachable"@) && !seq_contains(
            p,
            "assert_failed"@,
        ) ==> panic_category_of(p) is None,
{
    let e = Seq::<char>::empty();
    reveal_strlit("Option::<");
    reveal_strlit("::Option::");
    reveal_strlit("Result::<");
    reveal_strlit("::Result::");
    reveal_strlit("Option");
    reveal_strlit("Result");
    reveal_strlit("::<");
    reveal_strlit("::");
    assert("Option::<"@ =~= e + "Option"@ + "::<"@);
    assert("::Option::"@ =~= "::"@ + "Option"@ + "::"@);
    assert("Result::<"@ =~= e + "Result"@ + "::<"@);
    assert("::Result::"@ =~= "::"@ + "Result"@ + "::"@);
    if seq_contains(p, "Option::<"@) {
        lemma_contains_within(p, e, "Option"@, "::<"@);
    }
    if seq_contains(p, "::Option::"@) {
        lemma_contains_within(p, "::"@, "Option"@, "::"@);
    }
    if seq_contains(p, "Result::<"@) {
        lemma_contains_within(p, e, "Result"@, "::<"@);
    }
    if seq_contains(p, "::Result::"@) {
        lemma_contains_within(p, "::"@, "Result"@, "::"@);
    }
    let oq = pre + "Option::<"@ + mid;
    let rq = pre + "Result::<"@ + mid;
    lemma_contains_concat(pre, "Option::<"@, mid);
    lemma_contains_concat(pre, "Result::<"@, mid);
    if p == oq + ">::unwrap"@ || p == oq + ">::expect"@ {
        lemma_contains_concat(e, "Option::<"@, mid + ">::unwrap"@);
        assert(p == oq + ">::unwrap"@ ==> p =~= pre + "Option::<"@ + (mid + ">::unwrap"@));
        assert(p == oq + ">::expect"@ ==> p =~= pre + "Option::<"@ + (mid + ">::expect"@));
        lemma_contains_concat(pre, "Option::<"@, mid + ">::unwrap"@);
        lemma_contains_concat(pre, "Option::<"@, mid + ">::expect"@);
        lemma_ends_with_concat(oq, ">::unwrap"@);
        lemma_ends_with_concat(oq, ">::expect"@);
    }
    if p == rq + ">::unwrap"@ || p == rq + ">::expect"@ || p == rq + ">::unwrap_err"@ || p == rq + ">::expect_err"@ {
        assert(p == rq + ">::unwrap"@ ==> p =~= pre + "Result::<"@ + (mid + ">::unwrap"@));
        assert(p == rq + ">::expect"@ ==> p =~= pre + "Result::<"@ + (mid + ">::expect"@));
        assert(p == rq + ">::unwrap_err"@ ==> p =~= pre + "Result::<"@ + (mid + ">::unwrap_err"@));
        assert(p == rq + ">::expect_err"@ ==> p =~= pre + "Result::<"@ + (mid + ">::expect_err"@));
        lemma_contains_concat(pre, "Result::<"@, mid + ">::unwrap"@);
        lemma_contains_concat(pre, "Result::<"@, mid + ">::expect"@);
        lemma_contains_concat(pre, "Result::<"@, mid + ">::unwrap_err"@);
        lemma_contains_concat(pre, "Result::<"@, mid + ">::expect_err"@);
        lemma_ends_with_concat(rq, ">::unwrap"@);
        lemma_ends_with_concat(rq, ">::expect"@);
        lemma_ends_with_concat(rq, ">::unwrap_err"@);
        lemma_ends_with_concat(rq, ">::expect_err"@);
    }
}

/// The walk that looks for panics of the kinds in `categories`.
pub open spec fn panic_hazard(categories: Seq<PanicCategory>) -> Hazard {
    Hazard::Panic {
        unwrap: categories.contains(PanicCategory::Unwrap),
        explicit: categories.contains(PanicCategory::ExplicitPanic),
        index_bounds: categories.contains(PanicCategory::IndexBounds),
    }
}

fn has_category(categories: &Vec<PanicCategory>, c: PanicCategory) -> (r: bool)
    ensures
        r == categories@.contains(c),
{
    let mut i: usize = 0;
    while i < categories.len()
        invariant
            i <= categories@.len(),
            forall|k: int| 0 <= k < i ==> categories@[k] != c,
        decreases categories.len() - i,
    {
        if categories[i] == c {
            return true;
        }
        i = i + 1;
    }
    false
}

/// A call or bounds check that may panic, directly or through its callees.
#[derive(Debug)]
pub struct PanicViolation {
    /// The index of the terminator in the function body.
    pub site: usize,
    /// Why it is reported.
    pub reason: String,
}

/// The first call or bounds check in function `fn_id`'s body that may panic in
/// one of the kinds in `categories`, as far as the walk can tell (see
/// `detect_hazard`); each use starts with nothing remembered, so nothing is
/// reported exactly when the function does not reach such a panic, directly or
/// through the functions and closures it calls or passes on.
pub fn detect_panic_in_mir(g: &CallGraph, fn_id: usize, categories: &Vec<PanicCategory>) -> (r: Option<PanicViolation>)
    requires
        has_mir(*g, fn_id as int),
    ensures
        r matches Some(v) ==> v.site < body_of(*g, fn_id as int).len() && justified(
            *g,
            body_of(*g, fn_id as int)[v.site as int],
            panic_hazard(categories@),
            v.reason@,
        ),
        r matches Some(v) ==> forall|k: int|
            0 <= k < v.site ==> !direct_hazard(#[trigger] body_of(*g, fn_id as int)[k], panic_hazard(categories@)),
        r is None ==> forall|k: int|
            0 <= k < body_of(*g, fn_id as int).len() ==> !direct_hazard(
                #[trigger] body_of(*g, fn_id as int)[k],
                panic_hazard(categories@),
            ),
        r is None <==> !reaches_hazard(*g, fn_id as int, panic_hazard(categories@)),
{
    let h = Hazard::Panic {
        unwrap: has_category(categories, PanicCategory::Unwrap),
        explicit: has_category(categories, PanicCategory::ExplicitPanic),
        index_bounds: has_category(categories, PanicCategory::IndexBounds),
    };
    let mut cache: Vec<Option<bool>> = Vec::new();
    let mut i: usize = 0;
    while i < g.bodies.len()
        invariant
            i <= g.bodies@.len(),
            cache@.len() == i,
            forall|k: int| 0 <= k < i ==> cache@[k] is None,
        decreases g.bodies.len() - i,
    {
        cache.push(None);
        i = i + 1;
    }
    assert(cache_clean(*g, h, cache@));
    match detect_hazard(g, fn_id, h, &mut cache) {
        Some(v) => {
            proof {
                lemma_justified_reaches(*g, fn_id as int, v.site as int, h, v.reason@);
            }
            Some(PanicViolation { site: v.site, reason: v.reason })
        },
        None => None,
    }
}

} // verus!
