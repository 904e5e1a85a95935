//! Whether a function, or something it calls, reaches a heap allocation or a
//! panic: a walk of the crate's call graph that remembers what it has learnt.
use vstd::prelude::*;
use vstd::string::*;
use crate::lints::no_allocation::{allocating_path, is_allocating_function};
use crate::lints::no_panic::{PanicCategory, classify_panic_source, panic_category_of};

verus! {

/// A call in a function body.
#[derive(Debug)]
pub struct CallFacts {
    /// The path of the called function.
    pub path: String,
    /// The called function, when it belongs to the crate being checked.
    pub callee: Option<usize>,
    /// The functions and closures of the crate passed as arguments, in order.
    pub fn_args: Vec<usize>,
}

/// How a block of a function body ends.
#[derive(Debug)]
pub enum Terminator {
    Call(CallFacts),
    /// A compiler-inserted index bounds check.
    BoundsCheck,
    Other,
}

/// The functions of the crate being checked, by index: for each, the
/// terminators of its body in block order, when its MIR is available.
#[derive(Debug)]
pub struct CallGraph {
    pub bodies: Vec<Option<Vec<Terminator>>>,
}

/// What the walk looks for.
#[derive(Debug, Clone, Copy, PartialEq, Eq, Structural)]
pub enum Hazard {
    /// Heap allocations.
    Allocation,
    /// Panics of the selected kinds.
    Panic { unwrap: bool, explicit: bool, index_bounds: bool },
}

/// A call or check that reaches what the walk looks for.
#[derive(Debug)]
pub struct Violation {
    /// The index of the terminator in the function body.
    pub site: usize,
    /// Why it is reported.
    pub reason: String,
}

/// Whether panics of kind `c` are looked for.
pub open spec fn category_selected(h: Hazard, c: PanicCategory) -> bool {
    match h {
        Hazard::Panic { unwrap, explicit, index_bounds } => match c {
            PanicCategory::Unwrap => unwrap,
            PanicCategory::ExplicitPanic => explicit,
            PanicCategory::IndexBounds => index_bounds,
        },
        Hazard::Allocation => false,
    }
}

/// Whether calling the function at `path` is itself what the walk looks for.
pub open spec fn direct_call_hazard(path: Seq<char>, h: Hazard) -> bool {
    match h {
        Hazard::Allocation => allocating_path(path),
        Hazard::Panic { .. } => panic_category_of(path) matches Some(c) && category_selected(h, c),
    }
}

/// Whether a bounds check is what the walk looks for.
pub open spec fn check_hazard(h: Hazard) -> bool {
    h matches Hazard::Panic { index_bounds, .. } && index_bounds
}

/// Whether a terminator is, by itself, what the walk looks for.
pub open spec fn direct_hazard(t: Terminator, h: Hazard) -> bool {
    match t {
        Terminator::Call(c) => direct_call_hazard(c.path@, h),
        Terminator::BoundsCheck => check_hazard(h),
        Terminator::Other => false,
    }
}

/// Whether function `i` belongs to the graph and has a body.
pub open spec fn has_mir(g: CallGraph, i: int) -> bool {
    0 <= i < g.bodies@.len() && g.bodies@[i] is Some
}

/// The body of function `i`.
pub open spec fn body_of(g: CallGraph, i: int) -> Seq<Terminator> {
    g.bodies@[i].unwrap()@
}

/// Whether terminator `t` calls function `next`, or passes it as an argument,
/// and `next` has a body.
pub open spec fn links_to(g: CallGraph, t: Terminator, next: int) -> bool {
    &&& has_mir(g, next)
    &&& t matches Terminator::Call(c)
    &&& ((c.callee matches Some(i) && i == next) || exists|j: int|
        0 <= j < c.fn_args@.len() && #[trigger] c.fn_args@[j] == next)
}

/// Whether `chain` lists terminators, as (function, position in its body), each
/// of which calls or passes on the function of the next, the last of which is
/// by itself what the walk looks for.
pub open spec fn hazard_chain(g: CallGraph, chain: Seq<(int, int)>, h: Hazard) -> bool {
    &&& chain.len() > 0
    &&& forall|i: int|
        0 <= i < chain.len() ==> has_mir(g, #[trigger] chain[i].0) && 0 <= chain[i].1 < body_of(g, chain[i].0).len()
    &&& forall|i: int|
        0 <= i < chain.len() - 1 ==> links_to(g, body_of(g, #[trigger] chain[i].0)[chain[i].1], chain[i + 1].0)
    &&& direct_hazard(body_of(g, chain.last().0)[chain.last().1], h)
}

/// Whether function `id` reaches the hazard through some chain of calls.
pub open spec fn reaches_hazard(g: CallGraph, id: int, h: Hazard) -> bool {
    exists|chain: Seq<(int, int)>| hazard_chain(g, chain, h) && chain[0].0 == id
}

/// A terminator of a function that is by itself hazardous makes the function reach the hazard.
proof fn lemma_direct_reaches(g: CallGraph, id: int, k: int, h: Hazard)
    requires
        has_mir(g, id),
        0 <= k < body_of(g, id).len(),
        direct_hazard(body_of(g, id)[k], h),
    ensures
        reaches_hazard(g, id, h),
{
    let chain = seq![(id, k)];
    assert(hazard_chain(g, chain, h));
}

/// A terminator of a function that links to a function reaching the hazard
/// makes the function reach it.
proof fn lemma_link_reaches(g: CallGraph, id: int, k: int, next: int, h: Hazard)
    requires
        has_mir(g, id),
        0 <= k < body_of(g, id).len(),
        links_to(g, body_of(g, id)[k], next),
        reaches_hazard(g, next, h),
    ensures
        reaches_hazard(g, id, h),
{
    let rest = choose|chain: Seq<(int, int)>| hazard_chain(g, chain, h) && chain[0].0 == next;
    let chain = seq![(id, k)] + rest;
    assert forall|i: int| 0 <= i < chain.len() implies has_mir(g, #[trigger] chain[i].0) && 0 <= chain[i].1 < body_of(
        g,
        chain[i].0,
    ).len() by {
        if i > 0 {
            assert(chain[i] == rest[i - 1]);
        }
    }
    assert forall|i: int| 0 <= i < chain.len() - 1 implies links_to(
        g,
        body_of(g, #[trigger] chain[i].0)[chain[i].1],
        chain[i + 1].0,
    ) by {
        if i > 0 {
            assert(chain[i] == rest[i - 1]);
            assert(chain[i + 1] == rest[i]);
        } else {
            assert(chain[1] == rest[0]);
        }
    }
    assert(chain.last() == rest.last());
    assert(hazard_chain(g, chain, h));
}

/// Every remembered positive answer is true.
pub open spec fn cache_sound(g: CallGraph, h: Hazard, c: Seq<Option<bool>>) -> bool {
    forall|i: int| 0 <= i < c.len() && #[trigger] c[i] == Some(true) ==> reaches_hazard(g, i, h)
}

/// Every answer remembered in `o` is still remembered, unchanged, in `n`.
pub open spec fn keeps_answers(o: Seq<Option<bool>>, n: Seq<Option<bool>>) -> bool {
    &&& n.len() == o.len()
    &&& forall|i: int| 0 <= i < o.len() && #[trigger] o[i] is Some ==> n[i] == o[i]
}

/// Whether some terminator of function `id`'s body is by itself what the walk looks for.
pub open spec fn body_directly_hazardous(g: CallGraph, id: int, h: Hazard) -> bool {
    exists|k: int| 0 <= k < body_of(g, id).len() && direct_hazard(#[trigger] body_of(g, id)[k], h)
}

/// Whether every function that terminator `t` calls or passes on, and that has
/// a body, is remembered in `c` as not reaching the hazard: the walk has looked
/// at each of them and found nothing.
pub open spec fn links_settled(g: CallGraph, t: Terminator, c: Seq<Option<bool>>) -> bool {
    match t {
        Terminator::Call(call) => {
            &&& forall|j: int|
                #![trigger call.fn_args@[j]]
                0 <= j < call.fn_args@.len() && has_mir(g, call.fn_args@[j] as int) ==> c[call.fn_args@[j] as int]
                    == Some(false)
            &&& match call.callee {
                Some(i) => has_mir(g, i as int) ==> c[i as int] == Some(false),
                None => true,
            }
        },
        _ => true,
    }
}

/// Settled links stay settled while remembered answers are kept.
pub proof fn lemma_settled_kept(g: CallGraph, ts: Seq<Terminator>, k: int, o: Seq<Option<bool>>, n: Seq<Option<bool>>)
    requires
        o.len() == g.bodies@.len(),
        keeps_answers(o, n),
        forall|m: int| 0 <= m < k ==> links_settled(g, #[trigger] ts[m], o),
    ensures
        forall|m: int| 0 <= m < k ==> links_settled(g, #[trigger] ts[m], n),
{
    assert forall|m: int| 0 <= m < k implies links_settled(g, #[trigger] ts[m], n) by {
        assert(links_settled(g, ts[m], o));
        if let Terminator::Call(call) = ts[m] {
            assert forall|j: int|
                #![trigger call.fn_args@[j]]
                0 <= j < call.fn_args@.len() && has_mir(g, call.fn_args@[j] as int) implies n[call.fn_args@[j] as int]
                    == Some(false) by {
                assert(o[call.fn_args@[j] as int] == Some(false));
            }
            if let Some(i) = call.callee {
                if has_mir(g, i as int) {
                    assert(o[i as int] == Some(false));
                }
            }
        }
    }
}

/// Whether function `n` has a body, no terminator of it is hazardous by itself,
/// and everything it calls or passes on is remembered in `c` as not reaching
/// the hazard.
pub open spec fn walked_clean(g: CallGraph, h: Hazard, c: Seq<Option<bool>>, n: int) -> bool {
    &&& has_mir(g, n)
    &&& !body_directly_hazardous(g, n, h)
    &&& forall|k: int| 0 <= k < body_of(g, n).len() ==> links_settled(g, #[trigger] body_of(g, n)[k], c)
}

/// Whether every function with a body that `c` remembers as not reaching the
/// hazard, other than those in `pending` (whose walk is under way), is
/// `walked_clean`.
pub open spec fn clean_except(g: CallGraph, h: Hazard, c: Seq<Option<bool>>, pending: Set<int>) -> bool {
    forall|i: int|
        0 <= i < c.len() && #[trigger] c[i] == Some(false) && has_mir(g, i) && !pending.contains(i) ==> walked_clean(
            g,
            h,
            c,
            i,
        )
}

/// Whether every negative answer that `c` remembers is backed by a finished
/// walk (so is true): so of a fresh cache.
pub open spec fn cache_clean(g: CallGraph, h: Hazard, c: Seq<Option<bool>>) -> bool {
    clean_except(g, h, c, Set::empty())
}

proof fn lemma_mark_keeps_clean(
    g: CallGraph,
    h: Hazard,
    before: Seq<Option<bool>>,
    marked: Seq<Option<bool>>,
    pending: Set<int>,
    id: int,
)
    requires
        before.len() == g.bodies@.len(),
        0 <= id < before.len(),
        before[id] is None,
        marked == before.update(id, Some(false)),
        clean_except(g, h, before, pending),
    ensures
        clean_except(g, h, marked, pending.insert(id)),
        !has_mir(g, id) ==> clean_except(g, h, marked, pending),
{
    assert(keeps_answers(before, marked));
    assert forall|i: int|
        0 <= i < marked.len() && #[trigger] marked[i] == Some(false) && has_mir(g, i) && i != id && !pending.contains(
            i,
        ) implies walked_clean(g, h, marked, i) by {
        assert(before[i] == Some(false));
        assert(walked_clean(g, h, before, i));
        lemma_settled_kept(g, body_of(g, i), body_of(g, i).len() as int, before, marked);
    }
}

proof fn lemma_finish_keeps_clean(g: CallGraph, h: Hazard, c: Seq<Option<bool>>, pending: Set<int>, id: int)
    requires
        clean_except(g, h, c, pending.insert(id)),
        0 <= id < c.len(),
        walked_clean(g, h, c, id),
    ensures
        clean_except(g, h, c, pending),
{
    assert forall|i: int|
        0 <= i < c.len() && #[trigger] c[i] == Some(false) && has_mir(g, i) && !pending.contains(i) implies walked_clean(
            g,
            h,
            c,
            i,
        ) by {
        if i != id {
            assert(!pending.insert(id).contains(i));
        }
    }
}

proof fn lemma_chain_clean(g: CallGraph, h: Hazard, c: Seq<Option<bool>>, chain: Seq<(int, int)>, i: int)
    requires
        c.len() == g.bodies@.len(),
        cache_clean(g, h, c),
        hazard_chain(g, chain, h),
        walked_clean(g, h, c, chain[0].0),
        0 <= i < chain.len(),
    ensures
        walked_clean(g, h, c, chain[i].0),
    decreases i,
{
    if i > 0 {
        lemma_chain_clean(g, h, c, chain, i - 1);
        let p = chain[i - 1];
        let t = body_of(g, p.0)[p.1];
        let next = chain[i].0;
        assert(links_to(g, t, next));
        assert(links_settled(g, t, c));
        if let Terminator::Call(call) = t {
            if call.callee == Some(next as usize) {
                assert(c[next] == Some(false));
            } else {
                let j = choose|j: int| 0 <= j < call.fn_args@.len() && #[trigger] call.fn_args@[j] == next;
                assert(c[call.fn_args@[j] as int] == Some(false));
            }
        }
        assert(c[next] == Some(false));
        assert(!Set::<int>::empty().contains(next));
    }
}

/// A function that is `walked_clean` in a `cache_clean` cache does not reach
/// the hazard.
pub proof fn lemma_clean_unreachable(g: CallGraph, h: Hazard, c: Seq<Option<bool>>, id: int)
    requires
        c.len() == g.bodies@.len(),
        cache_clean(g, h, c),
        walked_clean(g, h, c, id),
    ensures
        !reaches_hazard(g, id, h),
{
    if reaches_hazard(g, id, h) {
        let chain = choose|chain: Seq<(int, int)>| hazard_chain(g, chain, h) && chain[0].0 == id;
        lemma_chain_clean(g, h, c, chain, chain.len() - 1);
        let last = chain[chain.len() - 1];
        assert(last == chain.last());
        assert(direct_hazard(body_of(g, last.0)[last.1], h));
        assert(body_directly_hazardous(g, last.0, h));
    }
}

/// How many functions have no remembered answer.
pub open spec fn count_none(c: Seq<Option<bool>>) -> nat
    decreases c.len(),
{
    if c.len() == 0 {
        0
    } else {
        count_none(c.drop_last()) + if c.last() is None {
            1nat
        } else {
            0nat
        }
    }
}

proof fn lemma_count_none_update(c: Seq<Option<bool>>, i: int, v: bool)
    requires
        0 <= i < c.len(),
    ensures
        c[i] is None ==> count_none(c.update(i, Some(v))) + 1 == count_none(c),
        c[i] is Some ==> count_none(c.update(i, Some(v))) == count_none(c),
    decreases c.len(),
{
    let u = c.update(i, Some(v));
    if i == c.len() - 1 {
        assert(u.drop_last() =~= c.drop_last());
    } else {
        assert(u.drop_last() =~= c.drop_last().update(i, Some(v)));
        lemma_count_none_update(c.drop_last(), i, v);
    }
}

/// The reason given for a call that passes a hazardous function or closure.
pub open spec fn closure_reason(h: Hazard, path: Seq<char>) -> Seq<char> {
    match h {
        Hazard::Allocation => "passes allocating closure to "@ + path,
        Hazard::Panic { .. } => "passes panicking closure to "@ + path,
    }
}

/// The reason given for a call that is itself hazardous.
pub open spec fn direct_reason(h: Hazard, path: Seq<char>) -> Seq<char> {
    match h {
        Hazard::Allocation => "calls allocating function: "@ + path,
        Hazard::Panic { .. } => "calls panicking function: "@ + path,
    }
}

/// The reason given for a call of a function that reaches the hazard.
pub open spec fn transitive_reason(h: Hazard, path: Seq<char>) -> Seq<char> {
    match h {
        Hazard::Allocation => "calls function that allocates: "@ + path,
        Hazard::Panic { .. } => "calls function that may panic: "@ + path,
    }
}

/// Whether `reason` is a true account of how terminator `t` reaches the hazard.
pub open spec fn justified(g: CallGraph, t: Terminator, h: Hazard, reason: Seq<char>) -> bool {
    match t {
        Terminator::Call(c) => {
            ||| reason == closure_reason(h, c.path@) && exists|j: int|
                0 <= j < c.fn_args@.len() && has_mir(g, c.fn_args@[j] as int) && #[trigger] reaches_hazard(
                    g,
                    c.fn_args@[j] as int,
                    h,
                )
            ||| reason == direct_reason(h, c.path@) && direct_call_hazard(c.path@, h)
            ||| reason == transitive_reason(h, c.path@) && (c.callee matches Some(i) && has_mir(g, i as int)
                && reaches_hazard(g, i as int, h))
        },
        Terminator::BoundsCheck => reason == "index bounds check may panic"@ && check_hazard(h),
        Terminator::Other => false,
    }
}

/// A function with a justified report about one of its terminators reaches the hazard.
pub proof fn lemma_justified_reaches(g: CallGraph, id: int, k: int, h: Hazard, reason: Seq<char>)
    requires
        has_mir(g, id),
        0 <= k < body_of(g, id).len(),
        justified(g, body_of(g, id)[k], h, reason),
    ensures
        reaches_hazard(g, id, h),
{
    let t = body_of(g, id)[k];
    if direct_hazard(t, h) {
        lemma_direct_reaches(g, id, k, h);
    } else {
        match t {
            Terminator::Call(c) => {
                if reason == closure_reason(h, c.path@) && exists|j: int|
                    0 <= j < c.fn_args@.len() && has_mir(g, c.fn_args@[j] as int) && #[trigger] reaches_hazard(
                        g,
                        c.fn_args@[j] as int,
                        h,
                    ) {
                    let j = choose|j: int|
                        0 <= j < c.fn_args@.len() && has_mir(g, c.fn_args@[j] as int) && #[trigger] reaches_hazard(
                            g,
                            c.fn_args@[j] as int,
                            h,
                        );
                    assert(links_to(g, t, c.fn_args@[j] as int));
                    lemma_link_reaches(g, id, k, c.fn_args@[j] as int, h);
                } else {
                    let i = c.callee.unwrap();
                    assert(links_to(g, t, i as int));
                    lemma_link_reaches(g, id, k, i as int, h);
                }
            },
            _ => {},
        }
    }
}

/// Whether the walk reports terminator `t` by itself: a hazardous call or check.
fn is_direct_hazard(t: &Terminator, h: Hazard) -> (r: bool)
    ensures
        r == direct_hazard(*t, h),
{
    match t {
        Terminator::Call(c) => is_hazardous_call(c.path.as_str(), h),
        Terminator::BoundsCheck => match h {
            Hazard::Panic { index_bounds, .. } => index_bounds,
            Hazard::Allocation => false,
        },
        Terminator::Other => false,
    }
}

/// Whether calling the function at `path` is itself what the walk looks for.
pub fn is_hazardous_call(path: &str, h: Hazard) -> (r: bool)
    ensures
        r == direct_call_hazard(path@, h),
{
    match h {
        Hazard::Allocation => is_allocating_function(path),
        Hazard::Panic { unwrap, explicit, index_bounds } => match classify_panic_source(path) {
            Some(PanicCategory::Unwrap) => unwrap,
            Some(PanicCategory::ExplicitPanic) => explicit,
            Some(PanicCategory::IndexBounds) => index_bounds,
            None => false,
        },
    }
}

fn reason_with(prefix: &str, path: &str) -> (r: String)
    ensures
        r@ == prefix@ + path@,
{
    let mut s = String::from_str(prefix);
    s.append(path);
    s
}

fn closure_reason_of(h: Hazard, path: &str) -> (r: String)
    ensures
        r@ == closure_reason(h, path@),
{
    match h {
        Hazard::Allocation => reason_with("passes allocating closure to ", path),
        Hazard::Panic { .. } => reason_with("passes panicking closure to ", path),
    }
}

fn direct_reason_of(h: Hazard, path: &str) -> (r: String)
    ensures
        r@ == direct_reason(h, path@),
{
    match h {
        Hazard::Allocation => reason_with("calls allocating function: ", path),
        Hazard::Panic { .. } => reason_with("calls panicking function: ", path),
    }
}

fn transitive_reason_of(h: Hazard, path: &str) -> (r: String)
    ensures
        r@ == transitive_reason(h, path@),
{
    match h {
        Hazard::Allocation => reason_with("calls function that allocates: ", path),
        Hazard::Panic { .. } => reason_with("calls function that may panic: ", path),
    }
}

fn analysable(g: &CallGraph, i: usize) -> (r: bool)
    ensures
        r == has_mir(*g, i as int),
{
    i < g.bodies.len() && g.bodies[i].is_some()
}

/// Whether function `id` reaches the hazard, as far as the walk can tell:
/// answers are remembered in `cache`, and a function is taken not to before its
/// own walk ends, so that cycles end; functions without a body are taken not to.
/// A remembered answer is given back; otherwise the new answer is remembered,
/// and it is positive when a terminator of the body is hazardous by itself;
/// when it is negative, every function the body calls or passes on, and that
/// has a body, is remembered as not reaching the hazard. A positive answer is
/// always true, and answers remembered before stay. When every function the
/// cache remembers as not reaching the hazard truly does not (`cache_clean`,
/// as of a fresh cache), the answer is exact, and a negative answer keeps the
/// cache so.
pub fn function_hazardous(g: &CallGraph, id: usize, h: Hazard, cache: &mut Vec<Option<bool>>) -> (r: bool)
    requires
        id < g.bodies@.len(),
        old(cache)@.len() == g.bodies@.len(),
        cache_sound(*g, h, old(cache)@),
    ensures
        final(cache)@.len() == g.bodies@.len(),
        cache_sound(*g, h, final(cache)@),
        count_none(final(cache)@) <= count_none(old(cache)@),
        keeps_answers(old(cache)@, final(cache)@),
        r ==> reaches_hazard(*g, id as int, h),
        old(cache)@[id as int] matches Some(b) ==> r == b,
        old(cache)@[id as int] is None ==> final(cache)@[id as int] == Some(r),
        old(cache)@[id as int] is None && !has_mir(*g, id as int) ==> !r,
        old(cache)@[id as int] is None && has_mir(*g, id as int) && body_directly_hazardous(*g, id as int, h) ==> r,
        old(cache)@[id as int] is None && has_mir(*g, id as int) && !r ==> forall|k: int|
            0 <= k < body_of(*g, id as int).len() ==> links_settled(*g, #[trigger] body_of(*g, id as int)[k], final(cache)@),
        cache_clean(*g, h, old(cache)@) ==> (r <==> reaches_hazard(*g, id as int, h)),
        cache_clean(*g, h, old(cache)@) && !r ==> cache_clean(*g, h, final(cache)@),
{
    let r = walk_function(g, id, h, cache, Ghost(Set::empty()));
    proof {
        if cache_clean(*g, h, old(cache)@) && !r {
            assert(clean_except(*g, h, old(cache)@, Set::empty()));
            assert(clean_except(*g, h, cache@, Set::empty()));
            if has_mir(*g, id as int) {
                lemma_clean_unreachable(*g, h, cache@, id as int);
            }
        }
    }
    r
}

/// The walk of `function_hazardous`, with the functions whose walk is under way
/// (`pending`): every other function remembered as not reaching the hazard
/// stays truly so when the answer is negative.
///
/// Whether function `id` reaches the hazard, as far as the walk can tell:
/// answers are remembered in `cache`, and a function is taken not to before its
/// own walk ends, so that cycles end; functions without a body are taken not to.
/// A remembered answer is given back; otherwise the new answer is remembered,
/// and it is positive when a terminator of the body is hazardous by itself;
/// when it is negative, every function the body calls or passes on, and that
/// has a body, is remembered as not reaching the hazard. A positive answer is
/// always true, and answers remembered before stay.
fn walk_function(
    g: &CallGraph,
    id: usize,
    h: Hazard,
    cache: &mut Vec<Option<bool>>,
    Ghost(pending): Ghost<Set<int>>,
) -> (r: bool)
    requires
        id < g.bodies@.len(),
        old(cache)@.len() == g.bodies@.len(),
        cache_sound(*g, h, old(cache)@),
    ensures
        final(cache)@.len() == g.bodies@.len(),
        cache_sound(*g, h, final(cache)@),
        count_none(final(cache)@) <= count_none(old(cache)@),
        keeps_answers(old(cache)@, final(cache)@),
        r ==> reaches_hazard(*g, id as int, h),
        old(cache)@[id as int] matches Some(b) ==> r == b,
        old(cache)@[id as int] is None ==> final(cache)@[id as int] == Some(r),
        old(cache)@[id as int] is None && !has_mir(*g, id as int) ==> !r,
        old(cache)@[id as int] is None && has_mir(*g, id as int) && body_directly_hazardous(*g, id as int, h) ==> r,
        old(cache)@[id as int] is None && has_mir(*g, id as int) && !r ==> forall|k: int|
            0 <= k < body_of(*g, id as int).len() ==> links_settled(*g, #[trigger] body_of(*g, id as int)[k], final(cache)@),
        clean_except(*g, h, old(cache)@, pending) && !r ==> clean_except(*g, h, final(cache)@, pending),
    decreases count_none(old(cache)@), 0nat,
{
    if let Some(b) = cache[id] {
        return b;
    }
    proof {
        lemma_count_none_update(cache@, id as int, false);
    }
    let ghost before = cache@;
    cache.set(id, Some(false));
    assert(keeps_answers(before, cache@));
    proof {
        if clean_except(*g, h, before, pending) {
            lemma_mark_keeps_clean(*g, h, before, cache@, pending, id as int);
        }
    }
    if !analysable(g, id) {
        return false;
    }
    let ghost marked = cache@;
    let found = walk_body(g, id, h, cache, Ghost(pending.insert(id as int)));
    assert(keeps_answers(before, cache@)) by {
        assert forall|i: int| 0 <= i < before.len() && #[trigger] before[i] is Some implies cache@[i] == before[i] by {
            assert(marked[i] == before[i]);
        }
    }
    let hazardous = found.is_some();
    proof {
        lemma_count_none_update(cache@, id as int, hazardous);
        if let Some(v) = found {
            lemma_justified_reaches(*g, id as int, v.site as int, h, v.reason@);
        } else if body_directly_hazardous(*g, id as int, h) {
            let k = choose|k: int| 0 <= k < body_of(*g, id as int).len() && direct_hazard(#[trigger] body_of(*g, id as int)[k], h);
            assert(!direct_hazard(body_of(*g, id as int)[k], h));
        }
    }
    let ghost walked = cache@;
    cache.set(id, Some(hazardous));
    proof {
        if !hazardous {
            assert(marked[id as int] == Some(false));
            assert(walked[id as int] == Some(false));
            assert(cache@ =~= walked);
            if clean_except(*g, h, before, pending) {
                lemma_finish_keeps_clean(*g, h, cache@, pending, id as int);
            }
        }
    }
    hazardous
}

/// The first terminator of function `id`'s body, in block order, that reaches
/// the hazard as far as the walk can tell, with the reason it is reported: for
/// a call, the first function argument that reaches it, else the call itself if
/// it is hazardous, else its callee if that reaches it. Every report is
/// justified, and no terminator before the reported one is by itself hazardous;
/// when nothing is reported, no terminator is. Every function that a terminator
/// before the reported one (or, when nothing is reported, any terminator) calls
/// or passes on, and that has a body, has been walked: it is remembered as not
/// reaching the hazard. Answers remembered before stay. When every function
/// the cache remembers as not reaching the hazard truly does not
/// (`cache_clean`, as of a fresh cache), nothing is reported exactly when the
/// function does not reach the hazard, and the cache stays so.
pub fn detect_hazard(g: &CallGraph, id: usize, h: Hazard, cache: &mut Vec<Option<bool>>) -> (r: Option<Violation>)
    requires
        has_mir(*g, id as int),
        old(cache)@.len() == g.bodies@.len(),
        cache_sound(*g, h, old(cache)@),
    ensures
        final(cache)@.len() == g.bodies@.len(),
        cache_sound(*g, h, final(cache)@),
        count_none(final(cache)@) <= count_none(old(cache)@),
        keeps_answers(old(cache)@, final(cache)@),
        r matches Some(v) ==> v.site < body_of(*g, id as int).len() && justified(
            *g,
            body_of(*g, id as int)[v.site as int],
            h,
            v.reason@,
        ),
        r matches Some(v) ==> forall|k: int| 0 <= k < v.site ==> !direct_hazard(#[trigger] body_of(*g, id as int)[k], h),
        r is None ==> forall|k: int| 0 <= k < body_of(*g, id as int).len() ==> !direct_hazard(#[trigger] body_of(*g, id as int)[k], h),
        r matches Some(v) ==> forall|k: int| 0 <= k < v.site ==> links_settled(*g, #[trigger] body_of(*g, id as int)[k], final(cache)@),
        r is None ==> forall|k: int| 0 <= k < body_of(*g, id as int).len() ==> links_settled(*g, #[trigger] body_of(*g, id as int)[k], final(cache)@),
        cache_clean(*g, h, old(cache)@) && r is None ==> !reaches_hazard(*g, id as int, h) && cache_clean(
            *g,
            h,
            final(cache)@,
        ),
{
    let r = walk_body(g, id, h, cache, Ghost(Set::empty()));
    proof {
        if cache_clean(*g, h, old(cache)@) && r is None {
            assert(clean_except(*g, h, old(cache)@, Set::empty()));
            assert(clean_except(*g, h, cache@, Set::empty()));
            lemma_clean_unreachable(*g, h, cache@, id as int);
        }
    }
    r
}

/// The first terminator of function `id`'s body, in block order, that reaches
/// the hazard as far as the walk can tell, with the reason it is reported: for
/// a call, the first function argument that reaches it, else the call itself if
/// it is hazardous, else its callee if that reaches it. Every report is
/// justified, and no terminator before the reported one is by itself hazardous;
/// when nothing is reported, no terminator is. Every function that a terminator
/// before the reported one (or, when nothing is reported, any terminator) calls
/// or passes on, and that has a body, has been walked: it is remembered as not
/// reaching the hazard. Answers remembered before stay.
fn walk_body(
    g: &CallGraph,
    id: usize,
    h: Hazard,
    cache: &mut Vec<Option<bool>>,
    Ghost(pending): Ghost<Set<int>>,
) -> (r: Option<Violation>)
    requires
        has_mir(*g, id as int),
        old(cache)@.len() == g.bodies@.len(),
        cache_sound(*g, h, old(cache)@),
    ensures
        final(cache)@.len() == g.bodies@.len(),
        cache_sound(*g, h, final(cache)@),
        count_none(final(cache)@) <= count_none(old(cache)@),
        keeps_answers(old(cache)@, final(cache)@),
        r matches Some(v) ==> v.site < body_of(*g, id as int).len() && justified(
            *g,
            body_of(*g, id as int)[v.site as int],
            h,
            v.reason@,
        ),
        r matches Some(v) ==> forall|k: int| 0 <= k < v.site ==> !direct_hazard(#[trigger] body_of(*g, id as int)[k], h),
        r is None ==> forall|k: int| 0 <= k < body_of(*g, id as int).len() ==> !direct_hazard(#[trigger] body_of(*g, id as int)[k], h),
        r matches Some(v) ==> forall|k: int| 0 <= k < v.site ==> links_settled(*g, #[trigger] body_of(*g, id as int)[k], final(cache)@),
        r is None ==> forall|k: int| 0 <= k < body_of(*g, id as int).len() ==> links_settled(*g, #[trigger] body_of(*g, id as int)[k], final(cache)@),
        clean_except(*g, h, old(cache)@, pending) && r is None ==> clean_except(*g, h, final(cache)@, pending),
    decreases count_none(old(cache)@), 1nat,
{
    let body = match &g.bodies[id] {
        Some(b) => b,
        None => {
            return None;
        },
    };
    let ghost start = count_none(cache@);
    let mut k: usize = 0;
    while k < body.len()
        invariant
            has_mir(*g, id as int),
            body@ == body_of(*g, id as int),
            k <= body@.len(),
            cache@.len() == g.bodies@.len(),
            cache_sound(*g, h, cache@),
            count_none(cache@) <= start,
            start == count_none(old(cache)@),
            keeps_answers(old(cache)@, cache@),
            forall|m: int| 0 <= m < k ==> !direct_hazard(#[trigger] body@[m], h),
            forall|m: int| 0 <= m < k ==> links_settled(*g, #[trigger] body@[m], cache@),
            clean_except(*g, h, old(cache)@, pending) ==> clean_except(*g, h, cache@, pending),
        decreases body.len() - k,
    {
        let t = &body[k];
        match t {
            Terminator::Call(c) => {
                let mut j: usize = 0;
                while j < c.fn_args.len()
                    invariant
                        has_mir(*g, id as int),
                        body@ == body_of(*g, id as int),
                        k < body@.len(),
                        *t == body@[k as int],
                        *t == Terminator::Call(*c),
                        j <= c.fn_args@.len(),
                        cache@.len() == g.bodies@.len(),
                        cache_sound(*g, h, cache@),
                        count_none(cache@) <= start,
                        start == count_none(old(cache)@),
                        keeps_answers(old(cache)@, cache@),
                        forall|m: int| 0 <= m < k ==> !direct_hazard(#[trigger] body@[m], h),
                        forall|m: int| 0 <= m < k ==> links_settled(*g, #[trigger] body@[m], cache@),
                        clean_except(*g, h, old(cache)@, pending) ==> clean_except(*g, h, cache@, pending),
                        forall|jj: int|
                            #![trigger c.fn_args@[jj]]
                            0 <= jj < j && has_mir(*g, c.fn_args@[jj] as int) ==> cache@[c.fn_args@[jj] as int]
                                == Some(false),
                    decreases c.fn_args.len() - j,
                {
                    let a = c.fn_args[j];
                    if analysable(g, a) {
                        let ghost before = cache@;
                        let hazardous = walk_function(g, a, h, cache, Ghost(pending));
                        proof {
                            lemma_settled_kept(*g, body@, k as int, before, cache@);
                            assert forall|jj: int|
                                #![trigger c.fn_args@[jj]]
                                0 <= jj <= j && has_mir(*g, c.fn_args@[jj] as int) implies (hazardous || cache@[c.fn_args@[jj] as int]
                                    == Some(false)) by {
                                if jj < j {
                                    assert(before[c.fn_args@[jj] as int] == Some(false));
                                }
                            }
                        }
                        if hazardous {
                            let reason = closure_reason_of(h, c.path.as_str());
                            assert(has_mir(*g, c.fn_args@[j as int] as int) && reaches_hazard(
                                *g,
                                c.fn_args@[j as int] as int,
                                h,
                            ));
                            return Some(Violation { site: k, reason });
                        }
                    }
                    j = j + 1;
                }
                if is_hazardous_call(c.path.as_str(), h) {
                    let reason = direct_reason_of(h, c.path.as_str());
                    return Some(Violation { site: k, reason });
                }
                if let Some(callee) = c.callee {
                    if analysable(g, callee) {
                        let ghost before = cache@;
                        let hazardous = walk_function(g, callee, h, cache, Ghost(pending));
                        proof {
                            lemma_settled_kept(*g, body@, k as int, before, cache@);
                            assert forall|jj: int|
                                #![trigger c.fn_args@[jj]]
                                0 <= jj < c.fn_args@.len() && has_mir(*g, c.fn_args@[jj] as int) implies cache@[c.fn_args@[jj] as int]
                                    == Some(false) by {
                                assert(before[c.fn_args@[jj] as int] == Some(false));
                            }
                        }
                        if hazardous {
                            let reason = transitive_reason_of(h, c.path.as_str());
                            return Some(Violation { site: k, reason });
                        }
                    }
                }
                assert(links_settled(*g, body@[k as int], cache@));
            },
            Terminator::BoundsCheck => {
                if is_direct_hazard(t, h) {
                    return Some(Violation { site: k, reason: String::from_str("index bounds check may panic") });
                }
            },
            Terminator::Other => {},
        }
        k = k + 1;
    }
    None
}

} // verus!
