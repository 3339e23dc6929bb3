//! The patch series: an ordered sequence of patch files in a fixed
//! directory. Application order is the lexicographic order of the file
//! names, so the checkout phase sorts the directory listing before the
//! series is applied.

use vstd::prelude::*;
use vstd::multiset::Multiset;
use vstd::seq_lib::group_to_multiset_ensures;

verus! {

/// Byte-wise lexicographic order on names: `a` sorts no later than `b`.
pub open spec fn lex_le(a: Seq<u8>, b: Seq<u8>) -> bool
    decreases a.len(),
{
    if a.len() == 0 {
        true
    } else if b.len() == 0 {
        false
    } else if a[0] < b[0] {
        true
    } else if a[0] > b[0] {
        false
    } else {
        lex_le(a.drop_first(), b.drop_first())
    }
}

/// `lex_le` is reflexive.
pub proof fn lemma_lex_le_refl(a: Seq<u8>)
    ensures
        lex_le(a, a),
    decreases a.len(),
{
    if a.len() > 0 {
        lemma_lex_le_refl(a.drop_first());
    }
}

/// `lex_le` is total: two names always compare one way or the other.
pub proof fn lemma_lex_le_total(a: Seq<u8>, b: Seq<u8>)
    ensures
        lex_le(a, b) || lex_le(b, a),
    decreases a.len(),
{
    if a.len() > 0 && b.len() > 0 && a[0] == b[0] {
        lemma_lex_le_total(a.drop_first(), b.drop_first());
    }
}

/// `lex_le` is transitive.
pub proof fn lemma_lex_le_trans(a: Seq<u8>, b: Seq<u8>, c: Seq<u8>)
    requires
        lex_le(a, b),
        lex_le(b, c),
    ensures
        lex_le(a, c),
    decreases a.len(),
{
    if a.len() > 0 && b.len() > 0 && c.len() > 0 && a[0] == b[0] && b[0] == c[0] {
        lemma_lex_le_trans(a.drop_first(), b.drop_first(), c.drop_first());
    }
}

/// `lex_le` is antisymmetric: names that compare no later than each
/// other are the same name.
pub proof fn lemma_lex_le_antisym(a: Seq<u8>, b: Seq<u8>)
    requires
        lex_le(a, b),
        lex_le(b, a),
    ensures
        a == b,
    decreases a.len(),
{
    if a.len() == 0 {
        assert(a =~= b);
    } else {
        assert(b.len() > 0);
        assert(a[0] == b[0]);
        lemma_lex_le_antisym(a.drop_first(), b.drop_first());
        assert(a.drop_first().len() == a.len() - 1);
        assert(b.drop_first().len() == b.len() - 1);
        assert(a.len() == b.len());
        assert forall|i: int| 0 <= i < a.len() implies a[i] == b[i] by {
            if i > 0 {
                assert(a[i] == a.drop_first()[i - 1]);
                assert(b[i] == b.drop_first()[i - 1]);
            }
        }
        assert(a =~= b);
    }
}

/// Executable comparison deciding [`lex_le`] on the views of two names.
pub fn lex_le_bytes(a: &Vec<u8>, b: &Vec<u8>) -> (r: bool)
    ensures
        r == lex_le(a@, b@),
{
    let mut i: usize = 0;
    proof {
        assert(a@.skip(0) =~= a@);
        assert(b@.skip(0) =~= b@);
    }
    loop
        invariant
            i <= a@.len(),
            i <= b@.len(),
            lex_le(a@, b@) == lex_le(a@.skip(i as int), b@.skip(i as int)),
        decreases a@.len() - i,
    {
        if i == a.len() {
            return true;
        }
        if i == b.len() {
            return false;
        }
        if a[i] < b[i] {
            return true;
        }
        if a[i] > b[i] {
            return false;
        }
        proof {
            assert(a@.skip(i as int).drop_first() =~= a@.skip(i + 1));
            assert(b@.skip(i as int).drop_first() =~= b@.skip(i + 1));
        }
        i = i + 1;
    }
}

/// A listing is sorted when every pair of names is in `lex_le` order.
pub open spec fn sorted_names(s: Seq<Vec<u8>>) -> bool {
    forall|i: int, j: int| 0 <= i <= j < s.len() ==> lex_le(s[i]@, s[j]@)
}

/// The names themselves, out of the vectors that carry them.
pub open spec fn views_of(s: Seq<Vec<u8>>) -> Seq<Seq<u8>> {
    s.map_values(|v: Vec<u8>| v@)
}

/// A sequence of names is sorted when every pair is in `lex_le` order.
pub open spec fn sorted_views(s: Seq<Seq<u8>>) -> bool {
    forall|i: int, j: int| 0 <= i <= j < s.len() ==> lex_le(s[i], s[j])
}

/// A sorted listing is sorted as a sequence of names.
pub proof fn lemma_sorted_names_views(s: Seq<Vec<u8>>)
    requires
        sorted_names(s),
    ensures
        sorted_views(views_of(s)),
{
    assert forall|i: int, j: int|
        0 <= i <= j < views_of(s).len() implies lex_le(views_of(s)[i], views_of(s)[j]) by {
        assert(lex_le(s[i]@, s[j]@));
    }
}

/// [`views_of`] agrees with the element-wise view of the carrying vector.
pub proof fn lemma_views_of_is_deep_view(v: Vec<Vec<u8>>)
    ensures
        views_of(v@) == v.deep_view(),
{
    assert forall|i: int| 0 <= i < v@.len() implies views_of(v@)[i] == v.deep_view()[i] by {
        assert(views_of(v@)[i] =~= v.deep_view()[i]);
    }
    assert(views_of(v@) =~= v.deep_view());
}

/// Application order is unique: two sorted sequences holding the same
/// names the same number of times are equal.
pub proof fn lemma_sorted_views_unique(s1: Seq<Seq<u8>>, s2: Seq<Seq<u8>>)
    requires
        sorted_views(s1),
        sorted_views(s2),
        s1.to_multiset() == s2.to_multiset(),
    ensures
        s1 == s2,
    decreases s1.len(),
{
    broadcast use {
        group_to_multiset_ensures,
        vstd::multiset::group_multiset_axioms,
        vstd::multiset::group_multiset_properties,
    };

    assert(s1.to_multiset().len() == s1.len());
    assert(s2.to_multiset().len() == s2.len());
    assert(s1.len() == s2.len());
    if s1.len() == 0 {
        assert(s1 =~= s2);
    } else {
        let a = s1[0];
        let b = s2[0];
        assert(s1.contains(a));
        assert(s2.to_multiset().count(a) > 0);
        assert(s2.contains(a));
        let j = choose|j: int| 0 <= j < s2.len() && s2[j] == a;
        assert(lex_le(b, a));
        assert(s2.contains(b));
        assert(s1.to_multiset().count(b) > 0);
        assert(s1.contains(b));
        let i = choose|i: int| 0 <= i < s1.len() && s1[i] == b;
        assert(lex_le(a, b));
        lemma_lex_le_antisym(a, b);
        assert(s1.remove(0) =~= s1.drop_first());
        assert(s2.remove(0) =~= s2.drop_first());
        assert(s1.drop_first().to_multiset() == s2.drop_first().to_multiset());
        assert forall|p: int, q: int|
            0 <= p <= q < s1.drop_first().len() implies lex_le(
            s1.drop_first()[p],
            s1.drop_first()[q],
        ) by {
            assert(lex_le(s1[p + 1], s1[q + 1]));
        }
        assert forall|p: int, q: int|
            0 <= p <= q < s2.drop_first().len() implies lex_le(
            s2.drop_first()[p],
            s2.drop_first()[q],
        ) by {
            assert(lex_le(s2[p + 1], s2[q + 1]));
        }
        lemma_sorted_views_unique(s1.drop_first(), s2.drop_first());
        assert forall|p: int| 0 <= p < s1.len() implies s1[p] == s2[p] by {
            if p > 0 {
                assert(s1[p] == s1.drop_first()[p - 1]);
                assert(s2[p] == s2.drop_first()[p - 1]);
            }
        }
        assert(s1 =~= s2);
    }
}

/// Sort a directory listing of patch file names into application order:
/// the result is a lexicographically sorted permutation of the input.
pub fn sort_names(names: Vec<Vec<u8>>) -> (r: Vec<Vec<u8>>)
    ensures
        sorted_names(r@),
        r@.to_multiset() == names@.to_multiset(),
        views_of(r@).to_multiset() == views_of(names@).to_multiset(),
{
    broadcast use {
        group_to_multiset_ensures,
        vstd::multiset::group_multiset_axioms,
        vstd::multiset::group_multiset_properties,
    };

    let mut rest = names;
    let mut out: Vec<Vec<u8>> = Vec::new();
    let ghost all: Seq<Vec<u8>> = rest@;
    proof {
        assert(out@.to_multiset().add(rest@.to_multiset()) =~= all.to_multiset());
        assert(views_of(out@).to_multiset().add(views_of(rest@).to_multiset())
            =~= views_of(all).to_multiset());
    }
    while rest.len() > 0
        invariant
            out@.to_multiset().add(rest@.to_multiset()) == all.to_multiset(),
            views_of(out@).to_multiset().add(views_of(rest@).to_multiset()) == views_of(
                all,
            ).to_multiset(),
            sorted_names(out@),
            forall|i: int, j: int|
                0 <= i < out@.len() && 0 <= j < rest@.len() ==> lex_le(out@[i]@, rest@[j]@),
        decreases rest.len(),
    {
        let m = min_index(&rest);
        let ghost old_out = out@;
        let ghost old_rest = rest@;
        let x = rest.remove(m);
        out.push(x);
        proof {
            broadcast use {
                group_to_multiset_ensures,
                vstd::multiset::group_multiset_axioms,
                vstd::multiset::group_multiset_properties,
            };

            assert(old_rest.contains(old_rest[m as int]));
            assert(old_rest.to_multiset().count(old_rest[m as int]) > 0);
            assert(out@.to_multiset().add(rest@.to_multiset()) =~= all.to_multiset());
            assert(views_of(out@) =~= views_of(old_out).push(x@));
            assert(views_of(rest@) =~= views_of(old_rest).remove(m as int));
            assert(views_of(old_rest)[m as int] == x@);
            assert(views_of(old_rest).contains(x@));
            assert(views_of(old_rest).to_multiset().count(x@) > 0);
            assert(views_of(out@).to_multiset() == views_of(old_out).push(x@).to_multiset());
            assert(views_of(rest@).to_multiset() == views_of(old_rest).remove(
                m as int,
            ).to_multiset());
            assert(views_of(out@).to_multiset().add(views_of(rest@).to_multiset())
                =~= views_of(all).to_multiset());
            assert forall|i: int, j: int|
                0 <= i <= j < out@.len() implies lex_le(out@[i]@, out@[j]@) by {
                if j == out@.len() - 1 {
                    if i < j {
                        assert(lex_le(old_out[i]@, old_rest[m as int]@));
                    } else {
                        lemma_lex_le_refl(old_rest[m as int]@);
                    }
                }
            }
            assert forall|i: int, j: int|
                0 <= i < out@.len() && 0 <= j < rest@.len() implies lex_le(
                out@[i]@,
                rest@[j]@,
            ) by {
                let j0: int = if j < m { j } else { j + 1 };
                assert(rest@[j] == old_rest[j0]);
                if i < out@.len() - 1 {
                    assert(lex_le(old_out[i]@, old_rest[j0]@));
                } else {
                    assert(lex_le(old_rest[m as int]@, old_rest[j0]@));
                }
            }
        }
    }
    proof {
        broadcast use {
            group_to_multiset_ensures,
            vstd::multiset::group_multiset_axioms,
            vstd::multiset::group_multiset_properties,
        };

        assert(rest@.to_multiset() =~= Multiset::<Vec<u8>>::empty());
        assert(out@.to_multiset() =~= out@.to_multiset().add(rest@.to_multiset()));
        assert(views_of(rest@).to_multiset() =~= Multiset::<Seq<u8>>::empty());
        assert(views_of(out@).to_multiset() =~= views_of(out@).to_multiset().add(
            views_of(rest@).to_multiset(),
        ));
    }
    out
}

/// Index of a lexicographically minimal name in a non-empty listing.
fn min_index(names: &Vec<Vec<u8>>) -> (m: usize)
    requires
        names@.len() > 0,
    ensures
        m < names@.len(),
        forall|j: int| 0 <= j < names@.len() ==> lex_le(names@[m as int]@, names@[j]@),
{
    let mut m: usize = 0;
    let mut k: usize = 1;
    proof {
        lemma_lex_le_refl(names@[0]@);
    }
    while k < names.len()
        invariant
            m < k,
            k <= names@.len(),
            forall|j: int| 0 <= j < k ==> lex_le(names@[m as int]@, names@[j]@),
        decreases names@.len() - k,
    {
        if lex_le_bytes(&names[k], &names[m]) {
            proof {
                assert forall|j: int| 0 <= j < k + 1 implies lex_le(names@[k as int]@, names@[j]@) by {
                    if j < k {
                        lemma_lex_le_trans(names@[k as int]@, names@[m as int]@, names@[j]@);
                    } else {
                        lemma_lex_le_refl(names@[k as int]@);
                    }
                }
            }
            m = k;
        } else {
            proof {
                lemma_lex_le_total(names@[k as int]@, names@[m as int]@);
            }
        }
        k = k + 1;
    }
    m
}

} // verus!
