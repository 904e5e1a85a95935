//! An ordered set of (crate, path) name pairs, as a sorted vector.
use vstd::prelude::*;
use vstd::string::*;
use crate::order::{lemma_lex_antisym, lemma_lex_total, lemma_lex_trans, lex_le, str_le};
use crate::text::str_eq;

verus! {

/// A pair of names, by their characters.
pub type NamePair = (Seq<char>, Seq<char>);

/// `a` comes strictly before `b`: by first name, then by second name.
pub open spec fn pair_lt(a: NamePair, b: NamePair) -> bool {
    (lex_le(a.0, b.0) && a.0 != b.0) || (a.0 == b.0 && lex_le(a.1, b.1) && a.1 != b.1)
}

/// The characters of each pair of strings.
pub open spec fn pair_views(v: Seq<(String, String)>) -> Seq<NamePair> {
    v.map_values(|p: (String, String)| (p.0@, p.1@))
}

/// Strictly increasing, so without repeats.
pub open spec fn strictly_sorted(s: Seq<NamePair>) -> bool {
    forall|i: int, j: int| 0 <= i < j < s.len() ==> pair_lt(#[trigger] s[i], #[trigger] s[j])
}

/// The order is transitive.
pub proof fn lemma_pair_lt_trans(a: NamePair, b: NamePair, c: NamePair)
    requires
        pair_lt(a, b),
        pair_lt(b, c),
    ensures
        pair_lt(a, c),
{
    if a.0 != b.0 && lex_le(a.0, b.0) {
        if b.0 != c.0 {
            lemma_lex_trans(a.0, b.0, c.0);
            if a.0 == c.0 {
                lemma_lex_antisym(a.0, b.0);
            }
        }
    } else {
        if b.0 != c.0 {
        } else {
            lemma_lex_trans(a.1, b.1, c.1);
            if a.1 == c.1 {
                lemma_lex_antisym(a.1, b.1);
            }
        }
    }
}

/// Any two pairs are equal or ordered one way.
pub proof fn lemma_pair_trichotomy(a: NamePair, b: NamePair)
    ensures
        pair_lt(a, b) || a == b || pair_lt(b, a),
        !(pair_lt(a, b) && pair_lt(b, a)),
{
    lemma_lex_total(a.0, b.0);
    lemma_lex_total(a.1, b.1);
    if lex_le(a.0, b.0) && lex_le(b.0, a.0) {
        lemma_lex_antisym(a.0, b.0);
    }
    if lex_le(a.1, b.1) && lex_le(b.1, a.1) {
        lemma_lex_antisym(a.1, b.1);
    }
}

fn pair_less(a: &(String, String), b: &(String, String)) -> (r: bool)
    ensures
        r == pair_lt((a.0@, a.1@), (b.0@, b.1@)),
{
    let first_eq = str_eq(a.0.as_str(), b.0.as_str());
    if !first_eq {
        str_le(a.0.as_str(), b.0.as_str())
    } else {
        let second_eq = str_eq(a.1.as_str(), b.1.as_str());
        !second_eq && str_le(a.1.as_str(), b.1.as_str())
    }
}

/// Adds `x` to the sorted set `v`, unless it is there already.
pub fn insert_pair(v: &mut Vec<(String, String)>, x: (String, String))
    requires
        strictly_sorted(pair_views(old(v)@)),
    ensures
        strictly_sorted(pair_views(final(v)@)),
        pair_views(final(v)@).to_set() == pair_views(old(v)@).to_set().insert((x.0@, x.1@)),
{
    let ghost xv = (x.0@, x.1@);
    let ghost s = pair_views(v@);
    let mut k: usize = 0;
    while k < v.len() && pair_less(&v[k], &x)
        invariant
            s == pair_views(v@),
            xv == (x.0@, x.1@),
            k <= v@.len(),
            forall|i: int| 0 <= i < k ==> pair_lt(#[trigger] s[i], xv),
        decreases v.len() - k,
    {
        assert(s[k as int] == (v@[k as int].0@, v@[k as int].1@));
        k = k + 1;
    }
    assert(k < s.len() ==> s[k as int] == (v@[k as int].0@, v@[k as int].1@));
    if k < v.len() && str_eq(v[k].0.as_str(), x.0.as_str()) && str_eq(v[k].1.as_str(), x.1.as_str()) {
        assert(s[k as int] == xv);
        assert(s.to_set().insert(xv) =~= s.to_set());
        return;
    }
    proof {
        if k < s.len() {
            lemma_pair_trichotomy(s[k as int], xv);
            assert(pair_lt(xv, s[k as int]));
            assert forall|j: int| k <= j < s.len() implies pair_lt(xv, #[trigger] s[j]) by {
                if j > k {
                    assert(pair_lt(s[k as int], s[j]));
                    lemma_pair_lt_trans(xv, s[k as int], s[j]);
                }
            }
        }
    }
    v.insert(k, x);
    let ghost t = pair_views(v@);
    assert(t =~= s.insert(k as int, xv));
    assert forall|i: int, j: int| 0 <= i < j < t.len() implies pair_lt(#[trigger] t[i], #[trigger] t[j]) by {
        if j < k {
            assert(t[i] == s[i] && t[j] == s[j]);
        } else if j == k {
            assert(t[i] == s[i] && t[j] == xv);
        } else if i < k {
            assert(t[i] == s[i] && t[j] == s[j - 1]);
            lemma_pair_lt_trans(s[i], xv, s[j - 1]);
        } else if i == k {
            assert(t[i] == xv && t[j] == s[j - 1]);
        } else {
            assert(t[i] == s[i - 1] && t[j] == s[j - 1]);
        }
    }
    assert(t.to_set() =~= s.to_set().insert(xv)) by {
        assert forall|y: NamePair| t.to_set().contains(y) implies s.to_set().insert(xv).contains(y) by {
            let i = choose|i: int| 0 <= i < t.len() && t[i] == y;
            if i < k {
                assert(s[i] == y);
            } else if i > k {
                assert(s[i - 1] == y);
            }
        }
        assert forall|y: NamePair| s.to_set().insert(xv).contains(y) implies t.to_set().contains(y) by {
            if y == xv {
                assert(t[k as int] == y);
            } else {
                let i = choose|i: int| 0 <= i < s.len() && s[i] == y;
                if i < k {
                    assert(t[i] == y);
                } else {
                    assert(t[i + 1] == y);
                }
            }
        }
    }
}

} // verus!
