//! Canonical names of modules, traits and types.
use vstd::prelude::*;
use vstd::string::*;
use crate::text::{chars_of, string_of_chars};

verus! {

/// `s` up to, not including, its first `<`; all of `s` when it has none.
pub open spec fn before_generics(s: Seq<char>) -> Seq<char>
    decreases s.len(),
{
    if s.len() == 0 {
        s
    } else if s[0] == '<' {
        Seq::empty()
    } else {
        seq![s[0]] + before_generics(s.skip(1))
    }
}

proof fn lemma_before_generics_prefix(s: Seq<char>, i: int)
    requires
        0 <= i <= s.len(),
        forall|k: int| 0 <= k < i ==> s[k] != '<',
    ensures
        i == s.len() ==> before_generics(s) == s,
        i < s.len() && s[i] == '<' ==> before_generics(s) == s.take(i),
    decreases i,
{
    if i > 0 {
        lemma_before_generics_prefix(s.skip(1), i - 1);
        assert(s =~= seq![s[0]] + s.skip(1));
        assert(s.take(i) =~= seq![s[0]] + s.skip(1).take(i - 1));
    } else if s.len() > 0 {
        assert(s.take(0) =~= Seq::<char>::empty());
    } else {
        assert(s =~= Seq::<char>::empty());
    }
}

/// A canonical name is a prefix of the name it comes from, holds no `<`, and
/// is its own canonical name.
pub proof fn lemma_canonical_name(s: Seq<char>)
    ensures
        before_generics(s).len() <= s.len(),
        s.take(before_generics(s).len() as int) == before_generics(s),
        forall|k: int| 0 <= k < before_generics(s).len() ==> before_generics(s)[k] != '<',
        before_generics(before_generics(s)) == before_generics(s),
    decreases s.len(),
{
    if s.len() > 0 && s[0] != '<' {
        lemma_canonical_name(s.skip(1));
        let rest = before_generics(s.skip(1));
        assert(before_generics(s) == seq![s[0]] + rest);
        assert(s.take(before_generics(s).len() as int) =~= seq![s[0]] + s.skip(1).take(rest.len() as int));
        assert forall|k: int| 0 <= k < before_generics(s).len() implies before_generics(s)[k] != '<' by {
            if k > 0 {
                assert(before_generics(s)[k] == rest[k - 1]);
            }
        }
        let b = before_generics(s);
        assert(b[0] == s[0]);
        assert(b.skip(1) =~= rest);
    } else if s.len() > 0 {
        assert(s.take(0) =~= Seq::<char>::empty());
    }
}

/// A name without generic parameters is its own canonical name, and a name
/// followed by `<` and its parameters has that name as its canonical name.
pub proof fn lemma_generics_removed(name: Seq<char>, params: Seq<char>)
    requires
        forall|k: int| 0 <= k < name.len() ==> name[k] != '<',
    ensures
        before_generics(name) == name,
        before_generics(name + seq!['<'] + params) == name,
{
    lemma_before_generics_prefix(name, name.len() as int);
    let s = name + seq!['<'] + params;
    assert forall|k: int| 0 <= k < name.len() implies s[k] != '<' by {
        assert(s[k] == name[k]);
    }
    assert(s[name.len() as int] == '<');
    lemma_before_generics_prefix(s, name.len() as int);
    assert(s.take(name.len() as int) =~= name);
}

/// `name` without its generic parameters.
fn strip_generics(name: &str) -> (r: String)
    ensures
        r@ == before_generics(name@),
{
    let cs = chars_of(name);
    let mut i: usize = 0;
    while i < cs.len() && cs[i] != '<'
        invariant
            cs@ == name@,
            i <= cs@.len(),
            forall|k: int| 0 <= k < i ==> cs@[k] != '<',
        decreases cs.len() - i,
    {
        i = i + 1;
    }
    proof {
        lemma_before_generics_prefix(name@, i as int);
    }
    let prefix = string_of_chars(&cs.as_slice()[0..i]);
    assert(cs@.subrange(0, i as int) =~= name@.take(i as int));
    proof {
        if i == cs@.len() {
            assert(name@.take(i as int) =~= name@);
        }
    }
    prefix
}

/// A trait name without its generic parameters: `Iterator<'a, T>` becomes `Iterator`.
pub fn get_canonical_trait_name(trait_name: &str) -> (r: String)
    ensures
        r@ == before_generics(trait_name@),
{
    strip_generics(trait_name)
}

/// A trait name without its generic parameters, prefixed with its crate:
/// `std` and `Iterator<'a, T>` give `std::Iterator`.
pub fn get_full_canonical_trait_name(crate_name: &str, trait_name: &str) -> (r: String)
    ensures
        r@ == crate_name@ + "::"@ + before_generics(trait_name@),
{
    let canonical = get_canonical_trait_name(trait_name);
    let mut s = String::from_str(crate_name);
    s.append("::");
    s.append(canonical.as_str());
    s
}

/// A type name without its generic parameters: `Vec<String>` becomes `Vec`.
pub fn get_canonical_type_name(ty: &str) -> (r: String)
    ensures
        r@ == before_generics(ty@),
{
    strip_generics(ty)
}

/// The full name of a module: the crate name alone for the crate root (whose
/// path within the crate is empty), else the crate name, `::` and the path.
pub open spec fn full_module_name(crate_name: Seq<char>, def_path: Seq<char>) -> Seq<char> {
    if def_path.len() == 0 {
        crate_name
    } else {
        crate_name + "::"@ + def_path
    }
}

/// The full name of the module with path `def_path` in crate `crate_name`.
pub fn get_full_module_name(crate_name: &str, def_path: &str) -> (r: String)
    ensures
        r@ == full_module_name(crate_name@, def_path@),
{
    if def_path.unicode_len() == 0 {
        String::from_str(crate_name)
    } else {
        let mut s = String::from_str(crate_name);
        s.append("::");
        s.append(def_path);
        s
    }
}

} // verus!
