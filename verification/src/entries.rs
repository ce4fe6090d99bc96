//! Specification vocabulary for ordered name/version entry lists, shared by
//! the manifest model and the fetched-version map.

use vstd::prelude::*;

verus! {

/// The view of a vector of owned string pairs.
pub open spec fn pairs_view(es: Seq<(String, String)>) -> Seq<(Seq<char>, Seq<char>)> {
    es.map_values(|p: (String, String)| (p.0@, p.1@))
}

/// The keys of `es` are pairwise distinct.
pub open spec fn distinct_keys(es: Seq<(Seq<char>, Seq<char>)>) -> bool {
    forall|i: int, j: int| 0 <= i < j < es.len() ==> es[i].0 != es[j].0
}

/// Some pair of `es` has key `k`.
pub open spec fn has_pkey(es: Seq<(Seq<char>, Seq<char>)>, k: Seq<char>) -> bool {
    exists|i: int| 0 <= i < es.len() && es[i].0 == k
}

/// The value of the first pair of `es` whose key is `k`, if any.
pub open spec fn lookup_val(es: Seq<(Seq<char>, Seq<char>)>, k: Seq<char>) -> Option<Seq<char>>
    decreases es.len(),
{
    if es.len() == 0 {
        None
    } else if es[0].0 == k {
        Some(es[0].1)
    } else {
        lookup_val(es.drop_first(), k)
    }
}

/// `es` with the value of every pair whose key is `k` replaced by `v`; keys
/// and order are untouched.
pub open spec fn replace_val(
    es: Seq<(Seq<char>, Seq<char>)>,
    k: Seq<char>,
    v: Seq<char>,
) -> Seq<(Seq<char>, Seq<char>)> {
    es.map_values(|p: (Seq<char>, Seq<char>)| if p.0 == k { (p.0, v) } else { p })
}

/// A found key means `lookup_val` yields a value, and the other way round.
pub proof fn lemma_lookup_some_iff_has(es: Seq<(Seq<char>, Seq<char>)>, k: Seq<char>)
    ensures
        lookup_val(es, k) is Some <==> has_pkey(es, k),
    decreases es.len(),
{
    if es.len() > 0 && es[0].0 != k {
        lemma_lookup_some_iff_has(es.drop_first(), k);
        assert(has_pkey(es.drop_first(), k) ==> has_pkey(es, k)) by {
            if has_pkey(es.drop_first(), k) {
                let i = choose|i: int|
                    0 <= i < es.drop_first().len() && es.drop_first()[i].0 == k;
                assert(es[i + 1].0 == k);
            }
        }
        assert(has_pkey(es, k) ==> has_pkey(es.drop_first(), k)) by {
            if has_pkey(es, k) {
                let i = choose|i: int| 0 <= i < es.len() && es[i].0 == k;
                assert(es.drop_first()[i - 1].0 == k);
            }
        }
    }
}

/// On a distinct-key list that has `k` at position `i`, `lookup_val` yields
/// exactly the value at `i`.
pub proof fn lemma_lookup_at(es: Seq<(Seq<char>, Seq<char>)>, k: Seq<char>, i: int)
    requires
        0 <= i < es.len(),
        es[i].0 == k,
        forall|j: int| 0 <= j < i ==> es[j].0 != k,
    ensures
        lookup_val(es, k) == Some(es[i].1),
    decreases i,
{
    if i > 0 {
        lemma_lookup_at(es.drop_first(), k, i - 1);
    }
}

/// `has_pkey` over a pair-list view, read back on the owned pairs.
pub proof fn lemma_has_pkey_index(es: Seq<(String, String)>, k: Seq<char>)
    ensures
        has_pkey(pairs_view(es), k) <==> exists|i: int| 0 <= i < es.len() && es[i].0@ == k,
{
    assert(pairs_view(es).len() == es.len());
    if has_pkey(pairs_view(es), k) {
        let i = choose|i: int| 0 <= i < pairs_view(es).len() && pairs_view(es)[i].0 == k;
        assert(es[i].0@ == k);
    }
    if exists|i: int| 0 <= i < es.len() && es[i].0@ == k {
        let i = choose|i: int| 0 <= i < es.len() && es[i].0@ == k;
        assert(pairs_view(es)[i].0 == k);
    }
}

/// The position of the first entry of `es` whose key is `name`, if any.
pub(crate) fn find_key(es: &Vec<(String, String)>, name: &String) -> (r: Option<usize>)
    ensures
        match r {
            Some(i) => 0 <= i < es@.len() && es@[i as int].0@ == name@ && (forall|j: int|
                0 <= j < i ==> es@[j].0@ != name@),
            None => forall|j: int| 0 <= j < es@.len() ==> es@[j].0@ != name@,
        },
{
    let mut i: usize = 0;
    while i < es.len()
        invariant
            0 <= i <= es@.len(),
            forall|j: int| 0 <= j < i ==> es@[j].0@ != name@,
        decreases es@.len() - i,
    {
        if es[i].0 == *name {
            return Some(i);
        }
        i = i + 1;
    }
    None
}

/// Distinctness of keys carries over to a list with the same keys.
pub proof fn lemma_distinct_same_keys(
    a: Seq<(Seq<char>, Seq<char>)>,
    b: Seq<(Seq<char>, Seq<char>)>,
)
    requires
        a.len() == b.len(),
        forall|i: int| 0 <= i < a.len() ==> (#[trigger] a[i]).0 == b[i].0,
        distinct_keys(a),
    ensures
        distinct_keys(b),
{
    assert forall|i: int, j: int| 0 <= i < j < b.len() implies (#[trigger] b[i]).0 != (
    #[trigger] b[j]).0 by {
        assert(a[i].0 != a[j].0);
        assert(a[i].0 == b[i].0);
        assert(a[j].0 == b[j].0);
    }
}

} // verus!
