//! Which called functions allocate on the heap, by the path of the callee.
use vstd::prelude::*;
use crate::lints::call_graph::{CallGraph, Hazard, body_directly_hazardous, cache_clean, lemma_justified_reaches, body_of, keeps_answers, links_settled, cache_sound, count_none, detect_hazard, direct_hazard, has_mir, justified, reaches_hazard};
use crate::text::{seq_contains, str_contains};

verus! {

/// `path` contains `s`.
pub open spec fn has(path: Seq<char>, s: Seq<char>) -> bool {
    seq_contains(path, s)
}

/// A low-level allocator entry point.
pub open spec fn is_raw_allocator(p: Seq<char>) -> bool {
    has(p, "alloc::alloc::"@) && (has(p, "::alloc"@) || has(p, "::allocate"@) || has(p, "::exchange_malloc"@)
        || has(p, "::box_free"@))
}

/// A `Box` constructor.
pub open spec fn is_box_allocation(p: Seq<char>) -> bool {
    (has(p, "::Box::"@) || has(p, "::Box::<"@)) && has(p, "::new"@)
}

/// A `Vec` operation that may allocate.
pub open spec fn is_vec_allocation(p: Seq<char>) -> bool {
    (has(p, "::Vec::"@) || has(p, "::Vec::<"@)) && (has(p, "::new"@) || has(p, "::with_capacity"@) || has(
        p,
        "::push"@,
    ) || has(p, "::insert"@) || has(p, "::extend"@) || has(p, "::append"@) || has(p, "::resize"@) || has(
        p,
        "::from_elem"@,
    ))
}

/// A `String` operation that may allocate.
pub open spec fn is_string_allocation(p: Seq<char>) -> bool {
    has(p, "::String::"@) && (has(p, "::new"@) || has(p, "::from"@) || has(p, "::from_utf8"@) || has(
        p,
        "::from_utf16"@,
    ) || has(p, "::push_str"@) || has(p, "::push"@) || has(p, "::insert"@) || has(p, "::insert_str"@))
}

/// Formatting into a new string.
pub open spec fn is_format(p: Seq<char>) -> bool {
    has(p, "::format"@) || has(p, "fmt::format"@)
}

/// A reference-counted allocation or clone.
pub open spec fn is_shared_allocation(p: Seq<char>) -> bool {
    (has(p, "::Rc::"@) || has(p, "::Rc::<"@) || has(p, "::Arc::"@) || has(p, "::Arc::<"@)) && (has(p, "::new"@)
        || has(p, "::clone"@))
}

/// A collection operation that may allocate.
pub open spec fn is_collection_allocation(p: Seq<char>) -> bool {
    (has(p, "HashMap"@) || has(p, "BTreeMap"@) || has(p, "HashSet"@) || has(p, "BTreeSet"@) || has(p, "VecDeque"@)
        || has(p, "LinkedList"@) || has(p, "BinaryHeap"@)) && (has(p, ">::new"@) || has(p, ">::with_capacity"@)
        || has(p, ">::insert"@) || has(p, ">::push"@))
}

/// A conversion into an owned value.
pub open spec fn is_owning_conversion(p: Seq<char>) -> bool {
    has(p, "::to_string"@) || has(p, "::to_owned"@)
}

/// The vector allocator's own entry points.
pub open spec fn is_raw_vec_allocation(p: Seq<char>) -> bool {
    has(p, "RawVec"@) && (has(p, "::new"@) || has(p, "::allocate"@))
}

/// Whether a call of the function at `p` is known to allocate on the heap.
pub open spec fn allocating_path(p: Seq<char>) -> bool {
    is_raw_allocator(p) || is_box_allocation(p) || is_vec_allocation(p) || is_string_allocation(p) || is_format(p)
        || is_shared_allocation(p) || is_collection_allocation(p) || is_owning_conversion(p)
        || is_raw_vec_allocation(p)
}

/// Whether a call of the function at `path` is known to allocate on the heap.
pub fn is_allocating_function(path: &str) -> (r: bool)
    ensures
        r == allocating_path(path@),
{
    let raw = str_contains(path, "alloc::alloc::") && (str_contains(path, "::alloc") || str_contains(
        path,
        "::allocate",
    ) || str_contains(path, "::exchange_malloc") || str_contains(path, "::box_free"));
    if raw {
        return true;
    }
    if (str_contains(path, "::Box::") || str_contains(path, "::Box::<")) && str_contains(path, "::new") {
        return true;
    }
    let vec_like = str_contains(path, "::Vec::") || str_contains(path, "::Vec::<");
    if vec_like {
        let vec_op = str_contains(path, "::new") || str_contains(path, "::with_capacity") || str_contains(
            path,
            "::push",
        ) || str_contains(path, "::insert") || str_contains(path, "::extend") || str_contains(path, "::append")
            || str_contains(path, "::resize") || str_contains(path, "::from_elem");
        if vec_op {
            return true;
        }
    }
    if str_contains(path, "::String::") {
        let string_op = str_contains(path, "::new") || str_contains(path, "::from") || str_contains(
            path,
            "::from_utf8",
        ) || str_contains(path, "::from_utf16") || str_contains(path, "::push_str") || str_contains(
            path,
            "::push",
        ) || str_contains(path, "::insert") || str_contains(path, "::insert_str");
        if string_op {
            return true;
        }
    }
    if str_contains(path, "::format") || str_contains(path, "fmt::format") {
        return true;
    }
    let shared = str_contains(path, "::Rc::") || str_contains(path, "::Rc::<") || str_contains(path, "::Arc::")
        || str_contains(path, "::Arc::<");
    if shared && (str_contains(path, "::new") || str_contains(path, "::clone")) {
        return true;
    }
    let collection = str_contains(path, "HashMap") || str_contains(path, "BTreeMap") || str_contains(
        path,
        "HashSet",
    ) || str_contains(path, "BTreeSet") || str_contains(path, "VecDeque") || str_contains(path, "LinkedList")
        || str_contains(path, "BinaryHeap");
    if collection {
        let collection_op = str_contains(path, ">::new") || str_contains(path, ">::with_capacity")
            || str_contains(path, ">::insert") || str_contains(path, ">::push");
        if collection_op {
            return true;
        }
    }
    if str_contains(path, "::to_string") || str_contains(path, "::to_owned") {
        return true;
    }
    if str_contains(path, "RawVec") && (str_contains(path, "::new") || str_contains(path, "::allocate")) {
        return true;
    }
    false
}

/// A call that allocates on the heap, directly or through its callees.
#[derive(Debug)]
pub struct AllocationViolation {
    /// The index of the terminator in the function body.
    pub site: usize,
    /// Why it is reported.
    pub reason: String,
}

/// The first call in function `fn_id`'s body that allocates as far as the
/// walk can tell (see `detect_hazard`), remembering what it learns of other
/// functions in `cache`.
pub fn detect_allocation_in_mir(g: &CallGraph, fn_id: usize, cache: &mut Vec<Option<bool>>) -> (r: Option<AllocationViolation>)
    requires
        has_mir(*g, fn_id as int),
        old(cache)@.len() == g.bodies@.len(),
        cache_sound(*g, Hazard::Allocation, old(cache)@),
    ensures
        final(cache)@.len() == g.bodies@.len(),
        cache_sound(*g, Hazard::Allocation, final(cache)@),
        r matches Some(v) ==> v.site < body_of(*g, fn_id as int).len() && justified(
            *g,
            body_of(*g, fn_id as int)[v.site as int],
            Hazard::Allocation,
            v.reason@,
        ),
        r matches Some(v) ==> forall|k: int|
            0 <= k < v.site ==> !direct_hazard(#[trigger] body_of(*g, fn_id as int)[k], Hazard::Allocation),
        r is None ==> forall|k: int|
            0 <= k < body_of(*g, fn_id as int).len() ==> !direct_hazard(
                #[trigger] body_of(*g, fn_id as int)[k],
                Hazard::Allocation,
            ),
        keeps_answers(old(cache)@, final(cache)@),
        r matches Some(v) ==> forall|k: int|
            0 <= k < v.site ==> links_settled(*g, #[trigger] body_of(*g, fn_id as int)[k], final(cache)@),
        r is None ==> forall|k: int|
            0 <= k < body_of(*g, fn_id as int).len() ==> links_settled(*g, #[trigger] body_of(*g, fn_id as int)[k], final(cache)@),
        r is Some ==> reaches_hazard(*g, fn_id as int, Hazard::Allocation),
        cache_clean(*g, Hazard::Allocation, old(cache)@) ==> (r is None <==> !reaches_hazard(
            *g,
            fn_id as int,
            Hazard::Allocation,
        )),
        cache_clean(*g, Hazard::Allocation, old(cache)@) && r is None ==> cache_clean(
            *g,
            Hazard::Allocation,
            final(cache)@,
        ),
{
    match detect_hazard(g, fn_id, Hazard::Allocation, cache) {
        Some(v) => {
            proof {
                lemma_justified_reaches(*g, fn_id as int, v.site as int, Hazard::Allocation, v.reason@);
            }
            Some(AllocationViolation { site: v.site, reason: v.reason })
        },
        None => None,
    }
}

/// Whether function `id` allocates, as far as the walk can tell (see
/// `function_hazardous`): a remembered answer is given back; otherwise the
/// answer is remembered, is negative for a function without a body, and is
/// positive when a call of the body allocates by itself. A positive answer is
/// always true, and answers remembered before stay; when the cache's negative
/// answers are all backed by finished walks (`cache_clean`, as of a fresh
/// cache), the answer is exact.
pub fn function_allocates(g: &CallGraph, id: usize, cache: &mut Vec<Option<bool>>) -> (r: bool)
    requires
        id < g.bodies@.len(),
        old(cache)@.len() == g.bodies@.len(),
        cache_sound(*g, Hazard::Allocation, old(cache)@),
    ensures
        final(cache)@.len() == g.bodies@.len(),
        cache_sound(*g, Hazard::Allocation, final(cache)@),
        keeps_answers(old(cache)@, final(cache)@),
        r ==> reaches_hazard(*g, id as int, Hazard::Allocation),
        old(cache)@[id as int] matches Some(b) ==> r == b,
        old(cache)@[id as int] is None ==> final(cache)@[id as int] == Some(r),
        old(cache)@[id as int] is None && !has_mir(*g, id as int) ==> !r,
        old(cache)@[id as int] is None && has_mir(*g, id as int) && body_directly_hazardous(
            *g,
            id as int,
            Hazard::Allocation,
        ) ==> r,
        old(cache)@[id as int] is None && has_mir(*g, id as int) && !r ==> forall|k: int|
            0 <= k < body_of(*g, id as int).len() ==> links_settled(*g, #[trigger] body_of(*g, id as int)[k], final(cache)@),
        cache_clean(*g, Hazard::Allocation, old(cache)@) ==> (r <==> reaches_hazard(*g, id as int, Hazard::Allocation)),
        cache_clean(*g, Hazard::Allocation, old(cache)@) && !r ==> cache_clean(*g, Hazard::Allocation, final(cache)@),
{
    crate::lints::call_graph::function_hazardous(g, id, Hazard::Allocation, cache)
}


/// The known heap-allocating entry points. A call is taken as allocating when
/// the callee's path names a conversion into an owned value (`::to_string`,
/// `::to_owned`), formatting (`::format`), a low-level allocator function, a
/// `Box`, `Vec`, `String`, `Rc` or `Arc` constructor or growing operation, a
/// growing operation of a standard collection, or the vector allocator; and a
/// path that names none of these types or operations is never taken as
/// allocating.
pub proof fn lemma_allocating_entry_points(p: Seq<char>)
    ensures
        seq_contains(p, "::to_owned"@) ==> allocating_path(p),
        seq_contains(p, "::to_string"@) ==> allocating_path(p),
        seq_contains(p, "::format"@) ==> allocating_path(p),
        seq_contains(p, "fmt::format"@) ==> allocating_path(p),
        seq_contains(p, "alloc::alloc::"@) && (seq_contains(p, "::alloc"@) || seq_contains(p, "::allocate"@)
            || seq_contains(p, "::exchange_malloc"@) || seq_contains(p, "::box_free"@)) ==> allocating_path(p),
        (seq_contains(p, "::Box::"@) || seq_contains(p, "::Box::<"@)) && seq_contains(p, "::new"@) ==> allocating_path(
            p,
        ),
        (seq_contains(p, "::Vec::"@) || seq_contains(p, "::Vec::<"@)) && (seq_contains(p, "::new"@) || seq_contains(
            p,
            "::with_capacity"@,
        ) || seq_contains(p, "::push"@) || seq_contains(p, "::insert"@) || seq_contains(p, "::extend"@)
            || seq_contains(p, "::append"@) || seq_contains(p, "::resize"@) || seq_contains(p, "::from_elem"@))
            ==> allocating_path(p),
        seq_contains(p, "::String::"@) && (seq_contains(p, "::new"@) || seq_contains(p, "::from"@) || seq_contains(
            p,
            "::push"@,
        ) || seq_contains(p, "::insert"@)) ==> allocating_path(p),
        (seq_contains(p, "::Rc::"@) || seq_contains(p, "::Arc::"@)) && (seq_contains(p, "::new"@) || seq_contains(
            p,
            "::clone"@,
        )) ==> allocating_path(p),
        (seq_contains(p, "HashMap"@) || seq_contains(p, "BTreeMap"@) || seq_contains(p, "HashSet"@) || seq_contains(
            p,
            "BTreeSet"@,
        ) || seq_contains(p, "VecDeque"@) || seq_contains(p, "LinkedList"@) || seq_contains(p, "BinaryHeap"@)) && (
        seq_contains(p, ">::new"@) || seq_contains(p, ">::with_capacity"@) || seq_contains(p, ">::insert"@)
            || seq_contains(p, ">::push"@)) ==> allocating_path(p),
        seq_contains(p, "RawVec"@) && (seq_contains(p, "::new"@) || seq_contains(p, "::allocate"@))
            ==> allocating_path(p),
        allocating_path(p) ==> seq_contains(p, "alloc::alloc::"@) || seq_contains(p, "::Box::"@) || seq_contains(
            p,
            "::Box::<"@,
        ) || seq_contains(p, "::Vec::"@) || seq_contains(p, "::Vec::<"@) || seq_contains(p, "::String::"@)
            || seq_contains(p, "::format"@) || seq_contains(p, "fmt::format"@) || seq_contains(p, "::Rc::"@)
            || seq_contains(p, "::Rc::<"@) || seq_contains(p, "::Arc::"@) || seq_contains(p, "::Arc::<"@)
            || seq_contains(p, "HashMap"@) || seq_contains(p, "BTreeMap"@) || seq_contains(p, "HashSet"@)
            || seq_contains(p, "BTreeSet"@) || seq_contains(p, "VecDeque"@) || seq_contains(p, "LinkedList"@)
            || seq_contains(p, "BinaryHeap"@) || seq_contains(p, "::to_string"@) || seq_contains(p, "::to_owned"@)
            || seq_contains(p, "RawVec"@),
{
}

} // verus!
