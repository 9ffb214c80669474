//! The types that carry a hand-written `kani::Arbitrary`, gathered as a sorted list of names.

use vstd::prelude::*;

use crate::model::{head_of, name_set, ItemNode, TypeShape};
use crate::probe::strs;
use crate::text::{chars_of, str_eq};

verus! {

/// Strict lexicographic order of character sequences by code point, which is the order of
/// `String`'s `Ord` (UTF-8 preserves code point order byte by byte).
pub open spec fn lex_lt(a: Seq<char>, b: Seq<char>) -> bool
    decreases a.len(),
{
    if a.len() == 0 {
        b.len() > 0
    } else if b.len() == 0 {
        false
    } else if a[0] != b[0] {
        a[0] < b[0]
    } else {
        lex_lt(a.drop_first(), b.drop_first())
    }
}

/// No sequence sorts before itself.
pub proof fn lemma_lex_irreflexive(a: Seq<char>)
    ensures
        !lex_lt(a, a),
    decreases a.len(),
{
    if a.len() > 0 {
        lemma_lex_irreflexive(a.drop_first());
    }
}

/// Any two distinct sequences are ordered one way and not the other.
pub proof fn lemma_lex_total(a: Seq<char>, b: Seq<char>)
    ensures
        a == b || lex_lt(a, b) || lex_lt(b, a),
        !(lex_lt(a, b) && lex_lt(b, a)),
    decreases a.len(),
{
    if a.len() > 0 && b.len() > 0 {
        lemma_lex_total(a.drop_first(), b.drop_first());
        if a[0] == b[0] && a.drop_first() == b.drop_first() {
            assert forall|i: int| 0 <= i < a.len() implies a[i] == b[i] by {
                if i > 0 {
                    assert(a[i] == a.drop_first()[i - 1] && b[i] == b.drop_first()[i - 1]);
                }
            }
            assert(a =~= b);
        }
    } else if a.len() == 0 && b.len() == 0 {
        assert(a =~= b);
    }
}

/// The order is transitive.
pub proof fn lemma_lex_trans(a: Seq<char>, b: Seq<char>, c: Seq<char>)
    requires
        lex_lt(a, b),
        lex_lt(b, c),
    ensures
        lex_lt(a, c),
    decreases a.len(),
{
    if a.len() > 0 && b.len() > 0 && c.len() > 0 && a[0] == b[0] && b[0] == c[0] {
        lemma_lex_trans(a.drop_first(), b.drop_first(), c.drop_first());
    }
}

/// Each name strictly before the next: sorted, and each at most once.
pub open spec fn strictly_sorted(v: Seq<Seq<char>>) -> bool {
    forall|i: int, j: int| 0 <= i < j < v.len() ==> lex_lt(#[trigger] v[i], #[trigger] v[j])
}

/// Whether `a` sorts strictly before `b` (see [`lex_lt`]).
fn string_lt(a: &String, b: &String) -> (r: bool)
    ensures
        r == lex_lt(a@, b@),
{
    let x = chars_of(a.as_str());
    let y = chars_of(b.as_str());
    let mut k: usize = 0;
    assert(x@.skip(0) == x@ && y@.skip(0) == y@);
    while k < x.len() && k < y.len() && x[k] == y[k]
        invariant
            k <= x@.len(),
            k <= y@.len(),
            lex_lt(a@, b@) == lex_lt(x@.skip(k as int), y@.skip(k as int)),
            x@ == a@,
            y@ == b@,
        decreases x@.len() - k,
    {
        assert(x@.skip(k as int).drop_first() =~= x@.skip(k + 1));
        assert(y@.skip(k as int).drop_first() =~= y@.skip(k + 1));
        k += 1;
    }
    if k == x.len() {
        k < y.len()
    } else if k == y.len() {
        false
    } else {
        x[k] < y[k]
    }
}

/// Inserts `n` into the strictly sorted list `v` where it belongs, unless it is there.
fn insert_name(v: &mut Vec<String>, n: String)
    requires
        strictly_sorted(strs(old(v)@)),
    ensures
        strictly_sorted(strs(final(v)@)),
        name_set(final(v)@) == name_set(old(v)@).insert(n@),
{
    let mut k: usize = 0;
    while k < v.len() && string_lt(&v[k], &n)
        invariant
            k <= v@.len(),
            forall|i: int| 0 <= i < k ==> lex_lt(#[trigger] v@[i]@, n@),
        decreases v@.len() - k,
    {
        k += 1;
    }
    if k < v.len() && v[k] == n {
        assert(name_set(v@) =~= name_set(v@).insert(n@)) by {
            assert(v@[k as int]@ == n@);
        }
        return;
    }
    let ghost before = v@;
    proof {
        if k < before.len() {
            lemma_lex_total(before[k as int]@, n@);
        }
        lemma_lex_irreflexive(n@);
    }
    v.insert(k, n);
    proof {
        assert forall|i: int, j: int| 0 <= i < j < strs(v@).len() implies lex_lt(#[trigger] strs(v@)[i], #[trigger] strs(v@)[j]) by {
            if j < k {
                assert(strs(before)[i] == before[i]@ && strs(before)[j] == before[j]@);
            } else if j == k {
            } else if i == k {
                if j - 1 > k {
                    assert(strs(before)[k as int] == before[k as int]@ && strs(before)[j - 1] == before[j - 1]@);
                    lemma_lex_trans(n@, before[k as int]@, before[j - 1]@);
                }
            } else if i < k {
                assert(strs(before)[i] == before[i]@ && strs(before)[j - 1] == before[j - 1]@);
                assert(lex_lt(before[i]@, n@));
                assert(lex_lt(n@, before[k as int]@));
                if j - 1 > k {
                    assert(strs(before)[k as int] == before[k as int]@);
                    lemma_lex_trans(n@, before[k as int]@, before[j - 1]@);
                }
                lemma_lex_trans(before[i]@, n@, before[j - 1]@);
            } else {
                assert(strs(before)[i - 1] == before[i - 1]@ && strs(before)[j - 1] == before[j - 1]@);
            }
        }
        assert forall|m: Seq<char>| name_set(v@).contains(m) == name_set(before).insert(n@).contains(m) by {
            if name_set(v@).contains(m) {
                let i = choose|i: int| 0 <= i < v@.len() && #[trigger] v@[i]@ == m;
                if i < k {
                    assert(before[i]@ == m);
                } else if i > k {
                    assert(before[i - 1]@ == m);
                }
            }
            if name_set(before).contains(m) {
                let i = choose|i: int| 0 <= i < before.len() && #[trigger] before[i]@ == m;
                if i < k {
                    assert(v@[i]@ == m);
                } else {
                    assert(v@[i + 1]@ == m);
                }
            }
            if m == n@ {
                assert(v@[k as int]@ == m);
            }
        }
        assert(name_set(v@) =~= name_set(before).insert(n@));
    }
}

/// The names of the types that the items `items` give a hand-written `kani::Arbitrary`:
/// the head of the implementing type of every `impl` of a trait whose path ends in
/// `Arbitrary`, reaching into inline modules.
pub open spec fn arbitrary_names(items: Seq<ItemNode>) -> Set<Seq<char>>
    decreases items,
{
    if items.len() == 0 {
        Set::empty()
    } else {
        arbitrary_names(items.drop_last()).union(item_arbitrary(items.last()))
    }
}

/// The names one item contributes (see [`arbitrary_names`]).
pub open spec fn item_arbitrary(item: ItemNode) -> Set<Seq<char>>
    decreases item,
{
    match item {
        ItemNode::Impl { trait_name: Some(t), self_ty, .. } => if t@ == "Arbitrary"@ {
            match head_of(self_ty) {
                Some(n) => set![n],
                None => Set::empty(),
            }
        } else {
            Set::empty()
        },
        ItemNode::Mod(Some(inner)) => arbitrary_names(inner@),
        _ => Set::empty(),
    }
}

/// Adds to `out` the names of the types with a hand-written `kani::Arbitrary` in `items`.
pub(crate) fn collect_arbitrary(items: &Vec<ItemNode>, out: &mut Vec<String>)
    requires
        strictly_sorted(strs(old(out)@)),
    ensures
        strictly_sorted(strs(final(out)@)),
        name_set(final(out)@) == name_set(old(out)@).union(arbitrary_names(items@)),
    decreases items,
{
    let ghost start = name_set(out@);
    let mut i: usize = 0;
    assert(items@.take(0) =~= Seq::<ItemNode>::empty());
    assert(start.union(Set::empty()) =~= start);
    while i < items.len()
        invariant
            i <= items@.len(),
            strictly_sorted(strs(out@)),
            name_set(out@) == start.union(arbitrary_names(items@.take(i as int))),
        decreases items@.len() - i,
    {
        let ghost t = items@.take(i + 1);
        assert(t.drop_last() =~= items@.take(i as int));
        assert(t.last() == items@[i as int]);
        let ghost before = name_set(out@);
        assert(arbitrary_names(t) == arbitrary_names(items@.take(i as int)).union(item_arbitrary(items@[i as int])));
        match &items[i] {
            ItemNode::Impl { trait_name: Some(tn), self_ty, .. } => {
                if str_eq(tn.as_str(), "Arbitrary") {
                    match &self_ty.shape {
                        TypeShape::Path { name: Some(n), .. } => {
                            insert_name(out, n.clone());
                            assert(item_arbitrary(items@[i as int]) == set![n@]);
                            assert(name_set(out@) =~= before.union(item_arbitrary(items@[i as int])));
                        },
                        _ => {
                            assert(item_arbitrary(items@[i as int]) =~= Set::empty());
                            assert(name_set(out@) =~= before.union(item_arbitrary(items@[i as int])));
                        },
                    }
                } else {
                    assert(item_arbitrary(items@[i as int]) =~= Set::empty());
                    assert(name_set(out@) =~= before.union(item_arbitrary(items@[i as int])));
                }
            },
            ItemNode::Mod(Some(inner)) => {
                collect_arbitrary(inner, out);
                assert(name_set(out@) =~= before.union(item_arbitrary(items@[i as int])));
            },
            _ => {
                assert(item_arbitrary(items@[i as int]) =~= Set::empty());
                assert(name_set(out@) =~= before.union(item_arbitrary(items@[i as int])));
            },
        }
        assert(name_set(out@) =~= start.union(arbitrary_names(t)));
        i += 1;
    }
    assert(items@.take(items@.len() as int) =~= items@);
}


} // verus!
