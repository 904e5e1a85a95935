//! Lexicographic order on character sequences, and a stable sort by name.
use vstd::prelude::*;

verus! {

/// `a` comes no later than `b` in lexicographic (code point) order.
pub open spec fn lex_le(a: Seq<char>, b: Seq<char>) -> bool
    decreases a.len(),
{
    if a.len() == 0 {
        true
    } else if b.len() == 0 {
        false
    } else if (a[0] as int) < (b[0] as int) {
        true
    } else if (a[0] as int) > (b[0] as int) {
        false
    } else {
        lex_le(a.skip(1), b.skip(1))
    }
}

/// Any two sequences are ordered one way or the other.
pub proof fn lemma_lex_total(a: Seq<char>, b: Seq<char>)
    ensures
        lex_le(a, b) || lex_le(b, a),
    decreases a.len(),
{
    if a.len() > 0 && b.len() > 0 && (a[0] as int) == (b[0] as int) {
        lemma_lex_total(a.skip(1), b.skip(1));
    }
}

/// Lexicographic order is transitive.
pub proof fn lemma_lex_trans(a: Seq<char>, b: Seq<char>, c: Seq<char>)
    requires
        lex_le(a, b),
        lex_le(b, c),
    ensures
        lex_le(a, c),
    decreases a.len(),
{
    if a.len() > 0 && b.len() > 0 && c.len() > 0 {
        if (a[0] as int) == (b[0] as int) && (b[0] as int) == (c[0] as int) {
            lemma_lex_trans(a.skip(1), b.skip(1), c.skip(1));
        }
    }
}

/// Lexicographic order is antisymmetric.
pub proof fn lemma_lex_antisym(a: Seq<char>, b: Seq<char>)
    requires
        lex_le(a, b),
        lex_le(b, a),
    ensures
        a == b,
    decreases a.len(),
{
    if a.len() > 0 && b.len() > 0 {
        lemma_lex_antisym(a.skip(1), b.skip(1));
        assert(a[0] == b[0]);
        assert(a =~= seq![a[0]] + a.skip(1));
        assert(b =~= seq![b[0]] + b.skip(1));
    }
}

/// Whether `a` comes no later than `b`, by code point.
pub fn chars_le(a: &[char], b: &[char]) -> (r: bool)
    ensures
        r == lex_le(a@, b@),
{
    let mut i: usize = 0;
    assert(a@.skip(0) =~= a@);
    assert(b@.skip(0) =~= b@);
    while i < a.len() && i < b.len()
        invariant
            i <= a@.len(),
            i <= b@.len(),
            lex_le(a@, b@) == lex_le(a@.skip(i as int), b@.skip(i as int)),
        decreases a.len() - i,
    {
        let x = a[i];
        let y = b[i];
        assert(a@.skip(i as int)[0] == a@[i as int]);
        assert(b@.skip(i as int)[0] == b@[i as int]);
        if x < y {
            return true;
        }
        if x > y {
            return false;
        }
        assert(a@.skip(i as int).skip(1) =~= a@.skip(i + 1));
        assert(b@.skip(i as int).skip(1) =~= b@.skip(i + 1));
        i = i + 1;
    }
    if i == a.len() {
        assert(a@.skip(i as int).len() == 0);
        true
    } else {
        assert(b@.skip(i as int).len() == 0);
        false
    }
}

/// Whether `a` comes no later than `b`.
pub fn str_le(a: &str, b: &str) -> (r: bool)
    ensures
        r == lex_le(a@, b@),
{
    let x = crate::text::chars_of(a);
    let y = crate::text::chars_of(b);
    chars_le(x.as_slice(), y.as_slice())
}

/// The keys are in non-decreasing order.
pub open spec fn sorted_keys(keys: Seq<Seq<char>>) -> bool {
    forall|i: int, j: int| 0 <= i < j < keys.len() ==> lex_le(keys[i], keys[j])
}

/// Values ordered by a string key.
pub trait Keyed {
    /// The key by which values are ordered.
    spec fn key(&self) -> Seq<char>;

    /// The key, as a string.
    fn key_str(&self) -> (r: &str)
        ensures
            r@ == self.key(),
    ;
}

/// The keys of a sequence of values.
pub open spec fn keys_of<T: Keyed>(s: Seq<T>) -> Seq<Seq<char>> {
    s.map_values(|x: T| x.key())
}

/// The values are in non-decreasing order of key.
pub open spec fn sorted_by_key<T: Keyed>(s: Seq<T>) -> bool {
    forall|i: int, j: int| 0 <= i < j < s.len() ==> lex_le(#[trigger] s[i].key(), #[trigger] s[j].key())
}

proof fn lemma_insert_sorted<T: Keyed>(s: Seq<T>, p: int, x: T)
    requires
        sorted_by_key(s),
        0 <= p <= s.len(),
        forall|i: int| 0 <= i < p ==> lex_le(#[trigger] s[i].key(), x.key()),
        p < s.len() ==> !lex_le(s[p].key(), x.key()),
    ensures
        sorted_by_key(s.insert(p, x)),
{
    let t = s.insert(p, x);
    s.insert_ensures(p, x);
    assert forall|i: int, j: int| 0 <= i < j < t.len() implies lex_le(#[trigger] t[i].key(), #[trigger] t[j].key()) by {
        if j < p {
            assert(t[i] == s[i] && t[j] == s[j]);
        } else if j == p {
            assert(t[i] == s[i]);
        } else if i < p {
            assert(t[i] == s[i] && t[j] == s[j - 1]);
            if p < s.len() {
                lemma_lex_total(s[p].key(), x.key());
                lemma_lex_trans(s[i].key(), x.key(), s[p].key());
                if j - 1 > p {
                    lemma_lex_trans(s[i].key(), s[p].key(), s[j - 1].key());
                }
            }
        } else if i == p {
            assert(t[j] == s[j - 1]);
            lemma_lex_total(s[p].key(), x.key());
            if j - 1 > p {
                lemma_lex_trans(x.key(), s[p].key(), s[j - 1].key());
            }
        } else {
            assert(t[i] == s[i - 1] && t[j] == s[j - 1]);
        }
    }
}

proof fn lemma_multiset_insert_at<T>(s: Seq<T>, p: int, x: T)
    requires
        0 <= p <= s.len(),
    ensures
        s.insert(p, x).to_multiset() =~= s.to_multiset().insert(x),
{
    broadcast use vstd::seq_lib::group_to_multiset_ensures;
    let t = s.insert(p, x);
    s.insert_ensures(p, x);
    assert(t[p] == x);
    assert(t.remove(p) =~= s);
    assert(t.remove(p).to_multiset() =~= t.to_multiset().remove(x));
    assert(t.contains(x));
    assert(t.to_multiset().count(x) > 0);
}

/// Rearranging a sequence rearranges its image under any map.
pub proof fn lemma_map_multiset<A, B>(a: Seq<A>, b: Seq<A>, f: spec_fn(A) -> B)
    requires
        a.to_multiset() == b.to_multiset(),
    ensures
        a.map_values(f).to_multiset() == b.map_values(f).to_multiset(),
    decreases a.len(),
{
    broadcast use vstd::seq_lib::group_to_multiset_ensures;
    broadcast use vstd::multiset::group_multiset_axioms;
    if a.len() == 0 {
        assert(a.to_multiset().len() == 0);
        assert(b.to_multiset().len() == b.len());
        assert(b.len() == 0);
        assert(a.map_values(f) =~= Seq::<B>::empty());
        assert(b.map_values(f) =~= Seq::<B>::empty());
    } else {
        let x = a[0];
        assert(a.contains(x));
        assert(b.to_multiset().count(x) > 0);
        assert(b.contains(x));
        let k = choose|k: int| 0 <= k < b.len() && b[k] == x;
        let a1 = a.remove(0);
        let b1 = b.remove(k);
        assert(a1.to_multiset() =~= a.to_multiset().remove(x));
        assert(b1.to_multiset() =~= b.to_multiset().remove(x));
        lemma_map_multiset(a1, b1, f);
        let fa = a.map_values(f);
        let fb = b.map_values(f);
        assert(fa.remove(0) =~= a1.map_values(f));
        assert(fb.remove(k) =~= b1.map_values(f));
        assert(fa[0] == f(x));
        assert(fb[k] == f(x));
        assert(fa.remove(0).to_multiset() =~= fa.to_multiset().remove(f(x)));
        assert(fb.remove(k).to_multiset() =~= fb.to_multiset().remove(f(x)));
        assert(fa.contains(f(x)));
        assert(fb.contains(f(x)));
        assert(fa.to_multiset() =~= fb.to_multiset()) by {
            assert forall|y: B| fa.to_multiset().count(y) == fb.to_multiset().count(y) by {
                assert(fa.remove(0).to_multiset().count(y) == fb.remove(k).to_multiset().count(y));
                if y == f(x) {
                    assert(fa.to_multiset().count(y) > 0);
                    assert(fb.to_multiset().count(y) > 0);
                }
            }
        }
    }
}

/// The elements of `s` whose key (by `key`) is `k`, in order.
pub open spec fn with_key<A>(s: Seq<A>, key: spec_fn(A) -> Seq<char>, k: Seq<char>) -> Seq<A>
    decreases s.len(),
{
    if s.len() == 0 {
        Seq::empty()
    } else {
        with_key(s.drop_last(), key, k) + if key(s.last()) == k {
            seq![s.last()]
        } else {
            Seq::<A>::empty()
        }
    }
}

/// The key of a keyed value.
pub open spec fn key_fn<T: Keyed>() -> spec_fn(T) -> Seq<char> {
    |x: T| x.key()
}

/// For every key, `a` and `b` hold the same elements with that key in the same
/// order: a reordering that keeps equal keys in their order.
pub open spec fn same_order_per_key<A>(a: Seq<A>, b: Seq<A>, key: spec_fn(A) -> Seq<char>) -> bool {
    forall|k: Seq<char>| #[trigger] with_key(a, key, k) == with_key(b, key, k)
}

/// Picking by key distributes over concatenation.
pub proof fn lemma_with_key_concat<A>(a: Seq<A>, b: Seq<A>, key: spec_fn(A) -> Seq<char>, k: Seq<char>)
    ensures
        with_key(a + b, key, k) == with_key(a, key, k) + with_key(b, key, k),
    decreases b.len(),
{
    if b.len() == 0 {
        assert(a + b =~= a);
        assert(with_key(a, key, k) + with_key(b, key, k) =~= with_key(a, key, k));
    } else {
        lemma_with_key_concat(a, b.drop_last(), key, k);
        assert((a + b).drop_last() =~= a + b.drop_last());
        assert((a + b).last() == b.last());
        assert(with_key(a + b, key, k) =~= with_key(a, key, k) + with_key(b, key, k));
    }
}

proof fn lemma_with_key_none<A>(s: Seq<A>, key: spec_fn(A) -> Seq<char>, k: Seq<char>)
    requires
        forall|i: int| 0 <= i < s.len() ==> key(#[trigger] s[i]) != k,
    ensures
        with_key(s, key, k) == Seq::<A>::empty(),
    decreases s.len(),
{
    if s.len() > 0 {
        lemma_with_key_none(s.drop_last(), key, k);
        assert(s.last() == s[s.len() - 1]);
        assert(with_key(s, key, k) =~= Seq::<A>::empty());
    }
}

proof fn lemma_with_key_single<A>(x: A, key: spec_fn(A) -> Seq<char>, k: Seq<char>)
    ensures
        with_key(seq![x], key, k) == (if key(x) == k {
            seq![x]
        } else {
            Seq::<A>::empty()
        }),
{
    assert(seq![x].drop_last() =~= Seq::<A>::empty());
    assert(seq![x].last() == x);
    assert(with_key(Seq::<A>::empty(), key, k) == Seq::<A>::empty());
    assert(with_key(seq![x], key, k) =~= (if key(x) == k {
        seq![x]
    } else {
        Seq::<A>::empty()
    }));
}

/// Picking by key commutes with a map that keeps keys.
pub proof fn lemma_with_key_map<A, B>(
    s: Seq<A>,
    f: spec_fn(A) -> B,
    ka: spec_fn(A) -> Seq<char>,
    kb: spec_fn(B) -> Seq<char>,
    k: Seq<char>,
)
    requires
        forall|x: A| #[trigger] kb(f(x)) == ka(x),
    ensures
        with_key(s.map_values(f), kb, k) == with_key(s, ka, k).map_values(f),
    decreases s.len(),
{
    if s.len() > 0 {
        lemma_with_key_map(s.drop_last(), f, ka, kb, k);
        assert(s.map_values(f).drop_last() =~= s.drop_last().map_values(f));
        assert(s.map_values(f).last() == f(s.last()));
        assert(kb(f(s.last())) == ka(s.last()));
        assert(with_key(s.map_values(f), kb, k) =~= with_key(s, ka, k).map_values(f));
    } else {
        assert(with_key(s.map_values(f), kb, k) =~= with_key(s, ka, k).map_values(f));
    }
}

/// Inserting `x` where every later element has a different key appends it to
/// the elements with its key and leaves the others alone.
proof fn lemma_with_key_insert<T: Keyed>(s: Seq<T>, p: int, x: T, k: Seq<char>)
    requires
        0 <= p <= s.len(),
        forall|j: int| p <= j < s.len() ==> (#[trigger] s[j]).key() != x.key(),
    ensures
        with_key(s.insert(p, x), key_fn::<T>(), k) == with_key(s, key_fn::<T>(), k) + with_key(
            seq![x],
            key_fn::<T>(),
            k,
        ),
{
    let kf = key_fn::<T>();
    let a = s.take(p);
    let b = s.skip(p);
    assert(s =~= a + b);
    assert(s.insert(p, x) =~= (a + seq![x]) + b);
    lemma_with_key_concat(a + seq![x], b, kf, k);
    lemma_with_key_concat(a, seq![x], kf, k);
    lemma_with_key_concat(a, b, kf, k);
    lemma_with_key_single(x, kf, k);
    if kf(x) == k {
        assert forall|i: int| 0 <= i < b.len() implies kf(#[trigger] b[i]) != k by {
            assert(b[i] == s[p + i]);
        }
        lemma_with_key_none(b, kf, k);
        assert(with_key(a + b, kf, k) =~= with_key(a, kf, k));
        assert(with_key((a + seq![x]) + b, kf, k) =~= with_key(a, kf, k) + with_key(seq![x], kf, k));
    } else {
        assert(with_key((a + seq![x]) + b, kf, k) =~= with_key(a, kf, k) + with_key(b, kf, k));
        assert(with_key(s, kf, k) + with_key(seq![x], kf, k) =~= with_key(a, kf, k) + with_key(b, kf, k));
    }
}

/// Sorts `v` by key, keeping equal keys in the order they had.
pub fn sort_by_key<T: Keyed>(v: &mut Vec<T>)
    ensures
        sorted_by_key(final(v)@),
        final(v)@.to_multiset() == old(v)@.to_multiset(),
        same_order_per_key(final(v)@, old(v)@, key_fn::<T>()),
{
    broadcast use vstd::seq_lib::group_to_multiset_ensures;
    let ghost orig = v@;
    let ghost kf = key_fn::<T>();
    let mut out: Vec<T> = Vec::new();
    assert forall|k: Seq<char>| #[trigger] with_key(orig, kf, k) == with_key(out@, kf, k) + with_key(v@, kf, k) by {
        assert(with_key(out@, kf, k) =~= Seq::<T>::empty());
        assert(with_key(out@, kf, k) + with_key(v@, kf, k) =~= with_key(v@, kf, k));
    }
    while v.len() > 0
        invariant
            sorted_by_key(out@),
            out@.to_multiset().add(v@.to_multiset()) == orig.to_multiset(),
            kf == key_fn::<T>(),
            forall|k: Seq<char>| #[trigger] with_key(orig, kf, k) == with_key(out@, kf, k) + with_key(v@, kf, k),
        decreases v.len(),
    {
        let ghost before = v@;
        let x = v.remove(0);
        assert(before.remove(0) == v@);
        let mut p: usize = 0;
        while p < out.len() && str_le(out[p].key_str(), x.key_str())
            invariant
                p <= out@.len(),
                forall|i: int| 0 <= i < p ==> lex_le(#[trigger] out@[i].key(), x.key()),
            decreases out.len() - p,
        {
            p = p + 1;
        }
        let ghost out_before = out@;
        out.insert(p, x);
        proof {
            assert forall|j: int| p <= j < out_before.len() implies (#[trigger] out_before[j]).key() != x.key() by {
                assert(!lex_le(out_before[p as int].key(), x.key()));
                lemma_lex_total(x.key(), x.key());
                if j > p {
                    assert(lex_le(out_before[p as int].key(), out_before[j].key()));
                }
            }
            assert(before =~= seq![x] + v@);
            assert forall|k: Seq<char>| #[trigger] with_key(orig, kf, k) == with_key(out_before.insert(p as int, x), kf, k)
                + with_key(v@, kf, k) by {
                lemma_with_key_insert(out_before, p as int, x, k);
                lemma_with_key_concat(seq![x], v@, kf, k);
                assert(with_key(orig, kf, k) == with_key(out_before, kf, k) + with_key(before, kf, k));
                assert(with_key(out_before, kf, k) + (with_key(seq![x], kf, k) + with_key(v@, kf, k)) =~= (
                with_key(out_before, kf, k) + with_key(seq![x], kf, k)) + with_key(v@, kf, k));
            }
            lemma_insert_sorted(out_before, p as int, x);
            assert(out@ == out_before.insert(p as int, x));
            lemma_multiset_insert_at(out_before, p as int, x);
            lemma_multiset_insert_at(v@, 0, x);
            assert(v@.insert(0, x) =~= before);
        }
    }
    proof {
        assert(v@.to_multiset() =~= vstd::multiset::Multiset::empty());
        assert(out@.to_multiset().add(vstd::multiset::Multiset::empty()) =~= out@.to_multiset());
        assert forall|k: Seq<char>| #[trigger] with_key(out@, kf, k) == with_key(orig, kf, k) by {
            assert(with_key(v@, kf, k) =~= Seq::<T>::empty());
            assert(with_key(out@, kf, k) + with_key(v@, kf, k) =~= with_key(out@, kf, k));
        }
    }
    *v = out;
}

} // verus!
