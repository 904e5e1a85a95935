//! Evaluation of struct rules, which combine leaf rules with `And`, `Or` and
//! `Not`, and the search for the leaf rules that make a combination fail.
use vstd::prelude::*;
use crate::config::struct_lint::StructRule;

verus! {

/// A rule that is not a combination of other rules.
pub open spec fn is_leaf_rule(r: StructRule) -> bool {
    !(r is And || r is Or || r is Not)
}

/// Whether `f` can be called on every leaf rule.
pub open spec fn callable_on_leaves<F: Fn(&StructRule) -> bool>(f: F) -> bool {
    forall|x: StructRule| is_leaf_rule(x) ==> #[trigger] f.requires((&x,))
}

/// Whether `f` answers every leaf rule as the valuation `v` does: whatever it
/// may return for a leaf `x` is `v(x)`.
pub open spec fn decides<F: Fn(&StructRule) -> bool>(f: F, v: spec_fn(StructRule) -> bool) -> bool {
    forall|x: StructRule, b: bool| is_leaf_rule(x) && #[trigger] f.ensures((&x,), b) ==> b == v(x)
}

/// Whether `rule` holds, its leaves valued by `v`.
pub open spec fn rule_holds(rule: StructRule, v: spec_fn(StructRule) -> bool) -> bool
    decreases rule,
{
    match rule {
        StructRule::And(l, r) => rule_holds(*l, v) && rule_holds(*r, v),
        StructRule::Or(l, r) => rule_holds(*l, v) || rule_holds(*r, v),
        StructRule::Not(i) => !rule_holds(*i, v),
        _ => v(rule),
    }
}

/// Evaluates `rule`, deciding its leaves with `evaluate_leaf`: the result is
/// the rule's value under any valuation that `evaluate_leaf` follows.
pub fn evaluate_rule_with<F: Fn(&StructRule) -> bool>(rule: &StructRule, evaluate_leaf: &F) -> (r: bool)
    requires
        callable_on_leaves(*evaluate_leaf),
    ensures
        forall|v: spec_fn(StructRule) -> bool| #[trigger] decides(*evaluate_leaf, v) ==> r == rule_holds(*rule, v),
    decreases rule,
{
    match rule {
        StructRule::And(left, right) => evaluate_rule_with(left, evaluate_leaf) && evaluate_rule_with(
            right,
            evaluate_leaf,
        ),
        StructRule::Or(left, right) => evaluate_rule_with(left, evaluate_leaf) || evaluate_rule_with(
            right,
            evaluate_leaf,
        ),
        StructRule::Not(inner) => !evaluate_rule_with(inner, evaluate_leaf),
        _ => {
            assert(is_leaf_rule(*rule));
            let b = evaluate_leaf(rule);
            proof {
                assert forall|v: spec_fn(StructRule) -> bool| #[trigger] decides(*evaluate_leaf, v) implies b
                    == rule_holds(*rule, v) by {
                    assert(evaluate_leaf.ensures((rule,), b));
                }
            }
            b
        },
    }
}

/// The leaf rules that make `rule` differ from `expected`, each with the value
/// it was expected to have, in the order they are found: nothing when `rule`
/// already has the expected value; else, for a combination of two rules, the
/// violations of each side under the same expectation; for a negation, those
/// of the inner rule under the opposite expectation; for a leaf, the leaf.
pub open spec fn violations_of(rule: StructRule, expected: bool, v: spec_fn(StructRule) -> bool) -> Seq<(StructRule, bool)>
    decreases rule,
{
    if rule_holds(rule, v) == expected {
        Seq::empty()
    } else {
        match rule {
            StructRule::And(l, r) => violations_of(*l, expected, v) + violations_of(*r, expected, v),
            StructRule::Or(l, r) => violations_of(*l, expected, v) + violations_of(*r, expected, v),
            StructRule::Not(i) => violations_of(*i, !expected, v),
            _ => seq![(rule, expected)],
        }
    }
}

/// The rules and expectations of a list of reported violations.
pub open spec fn violation_values(v: Seq<(&StructRule, bool)>) -> Seq<(StructRule, bool)> {
    v.map_values(|p: (&StructRule, bool)| (*p.0, p.1))
}

/// Appends to `violations` the leaf rules that make `rule` differ from
/// `expected`, with the value each was expected to have: those of
/// `violations_of` under any valuation that `evaluate_leaf` follows.
pub fn collect_rule_violations<'a, F: Fn(&StructRule) -> bool>(
    rule: &'a StructRule,
    expected: bool,
    evaluate_leaf: &F,
    violations: &mut Vec<(&'a StructRule, bool)>,
)
    requires
        callable_on_leaves(*evaluate_leaf),
    ensures
        forall|v: spec_fn(StructRule) -> bool|
            #[trigger] decides(*evaluate_leaf, v) ==> violation_values(final(violations)@) == violation_values(
                old(violations)@,
            ) + violations_of(*rule, expected, v),
    decreases rule,
{
    let ghost before = violation_values(violations@);
    if evaluate_rule_with(rule, evaluate_leaf) == expected {
        assert forall|v: spec_fn(StructRule) -> bool| #[trigger] decides(*evaluate_leaf, v) implies violation_values(
            violations@,
        ) == before + violations_of(*rule, expected, v) by {
            assert(violation_values(violations@) =~= before + Seq::<(StructRule, bool)>::empty());
        }
        return;
    }
    match rule {
        StructRule::And(left, right) => {
            collect_rule_violations(left, expected, evaluate_leaf, violations);
            collect_rule_violations(right, expected, evaluate_leaf, violations);
            assert forall|v: spec_fn(StructRule) -> bool| #[trigger] decides(*evaluate_leaf, v) implies violation_values(
                violations@,
            ) == before + violations_of(*rule, expected, v) by {
                assert(rule_holds(*rule, v) != expected);
                assert(violation_values(violations@) =~= before + (violations_of(**left, expected, v) + violations_of(
                    **right,
                    expected,
                    v,
                )));
            }
        },
        StructRule::Or(left, right) => {
            collect_rule_violations(left, expected, evaluate_leaf, violations);
            collect_rule_violations(right, expected, evaluate_leaf, violations);
            assert forall|v: spec_fn(StructRule) -> bool| #[trigger] decides(*evaluate_leaf, v) implies violation_values(
                violations@,
            ) == before + violations_of(*rule, expected, v) by {
                assert(rule_holds(*rule, v) != expected);
                assert(violation_values(violations@) =~= before + (violations_of(**left, expected, v) + violations_of(
                    **right,
                    expected,
                    v,
                )));
            }
        },
        StructRule::Not(inner) => {
            collect_rule_violations(inner, !expected, evaluate_leaf, violations);
            assert forall|v: spec_fn(StructRule) -> bool| #[trigger] decides(*evaluate_leaf, v) implies violation_values(
                violations@,
            ) == before + violations_of(*rule, expected, v) by {
                assert(rule_holds(*rule, v) != expected);
            }
        },
        _ => {
            violations.push((rule, expected));
            assert forall|v: spec_fn(StructRule) -> bool| #[trigger] decides(*evaluate_leaf, v) implies violation_values(
                violations@,
            ) == before + violations_of(*rule, expected, v) by {
                assert(rule_holds(*rule, v) != expected);
                assert(violation_values(violations@) =~= before + seq![(*rule, expected)]);
            }
        },
    }
}

/// A rule has no violations under an expectation exactly when it has the
/// expected value.
pub proof fn lemma_no_violations_iff_expected(rule: StructRule, expected: bool, v: spec_fn(StructRule) -> bool)
    ensures
        violations_of(rule, expected, v).len() == 0 <==> rule_holds(rule, v) == expected,
    decreases rule,
{
    if rule_holds(rule, v) != expected {
        match rule {
            StructRule::And(l, r) => {
                if rule_holds(*l, v) != expected {
                    lemma_no_violations_iff_expected(*l, expected, v);
                } else {
                    lemma_no_violations_iff_expected(*r, expected, v);
                }
            },
            StructRule::Or(l, r) => {
                if rule_holds(*l, v) != expected {
                    lemma_no_violations_iff_expected(*l, expected, v);
                } else {
                    lemma_no_violations_iff_expected(*r, expected, v);
                }
            },
            StructRule::Not(i) => {
                lemma_no_violations_iff_expected(*i, !expected, v);
            },
            _ => {},
        }
    }
}

/// Every reported violation is a leaf rule whose value differs from the value
/// it was expected to have.
pub proof fn lemma_violations_are_failing_leaves(rule: StructRule, expected: bool, v: spec_fn(StructRule) -> bool)
    ensures
        forall|k: int|
            0 <= k < violations_of(rule, expected, v).len() ==> {
                let w = #[trigger] violations_of(rule, expected, v)[k];
                is_leaf_rule(w.0) && v(w.0) != w.1
            },
    decreases rule,
{
    if rule_holds(rule, v) != expected {
        match rule {
            StructRule::And(l, r) => {
                lemma_violations_are_failing_leaves(*l, expected, v);
                lemma_violations_are_failing_leaves(*r, expected, v);
                let a = violations_of(*l, expected, v);
                let b = violations_of(*r, expected, v);
                assert(violations_of(rule, expected, v) == a + b);
                assert forall|k: int| 0 <= k < (a + b).len() implies {
                    let w = #[trigger] (a + b)[k];
                    is_leaf_rule(w.0) && v(w.0) != w.1
                } by {
                    if k < a.len() {
                        assert((a + b)[k] == a[k]);
                    } else {
                        assert((a + b)[k] == b[k - a.len()]);
                    }
                }
            },
            StructRule::Or(l, r) => {
                lemma_violations_are_failing_leaves(*l, expected, v);
                lemma_violations_are_failing_leaves(*r, expected, v);
                let a = violations_of(*l, expected, v);
                let b = violations_of(*r, expected, v);
                assert(violations_of(rule, expected, v) == a + b);
                assert forall|k: int| 0 <= k < (a + b).len() implies {
                    let w = #[trigger] (a + b)[k];
                    is_leaf_rule(w.0) && v(w.0) != w.1
                } by {
                    if k < a.len() {
                        assert((a + b)[k] == a[k]);
                    } else {
                        assert((a + b)[k] == b[k - a.len()]);
                    }
                }
            },
            StructRule::Not(i) => {
                lemma_violations_are_failing_leaves(*i, !expected, v);
                assert(violations_of(rule, expected, v) == violations_of(*i, !expected, v));
            },
            _ => {
                assert(violations_of(rule, expected, v) == seq![(rule, expected)]);
                assert(is_leaf_rule(rule));
            },
        }
    }
}

/// Negating a rule inverts what is expected of it: the violations of `Not(i)`
/// under an expectation are those of `i` under the opposite one.
pub proof fn lemma_not_inverts_expectation(inner: StructRule, expected: bool, v: spec_fn(StructRule) -> bool)
    ensures
        violations_of(StructRule::Not(Box::new(inner)), expected, v) == violations_of(inner, !expected, v),
{
    let rule = StructRule::Not(Box::new(inner));
    assert(rule_holds(rule, v) == !rule_holds(inner, v));
}

/// When an `Or` rule that must hold fails, both alternatives failed, and each
/// is reported: the violations are those of the left side followed by those of
/// the right side, and neither part is empty.
pub proof fn lemma_failed_or_reports_both(left: StructRule, right: StructRule, v: spec_fn(StructRule) -> bool)
    requires
        !rule_holds(StructRule::Or(Box::new(left), Box::new(right)), v),
    ensures
        violations_of(StructRule::Or(Box::new(left), Box::new(right)), true, v) == violations_of(left, true, v)
            + violations_of(right, true, v),
        violations_of(left, true, v).len() > 0,
        violations_of(right, true, v).len() > 0,
{
    lemma_no_violations_iff_expected(left, true, v);
    lemma_no_violations_iff_expected(right, true, v);
}

} // verus!
