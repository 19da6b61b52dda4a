//! Shared helpers: text and path rules, commands, audit records and the worker abstraction.

pub mod audit;
pub mod command;
pub mod paths;
pub mod session;
pub mod test_utils;
pub mod text;
pub mod worker;

use vstd::prelude::*;
use vstd::std_specs::cmp::PartialEqSpec;

verus! {

/// Distribution metadata used by experiments for compatibility gating.
#[derive(Debug)]
pub struct Distribution {
    pub id: String,
    pub id_like: String,
    pub release: String,
}

impl Distribution {
    /// A copy of the distribution metadata.
    pub fn duplicate(&self) -> (d: Distribution)
        ensures
            d.id@ == self.id@,
            d.id_like@ == self.id_like@,
            d.release@ == self.release@,
    {
        Distribution { id: self.id.clone(), id_like: self.id_like.clone(), release: self.release.clone() }
    }
}

/// How many elements of `s` equal `x` (by the type's `==`).
pub open spec fn count_equal<T: PartialEq>(s: Seq<T>, x: T) -> nat
    decreases s.len(),
{
    if s.len() == 0 {
        0
    } else {
        count_equal(s.drop_last(), x) + if s.last().eq_spec(&x) {
            1nat
        } else {
            0nat
        }
    }
}

/// Unordered equality of two sequences: the same length, and every value occurring in
/// either one occurs equally often in both.
pub open spec fn spec_same_elements<T: PartialEq>(v1: Seq<T>, v2: Seq<T>) -> bool {
    &&& v1.len() == v2.len()
    &&& forall|i: int| 0 <= i < v1.len() ==> count_equal(v1, #[trigger] v1[i]) == count_equal(v2, v1[i])
    &&& forall|j: int| 0 <= j < v2.len() ==> count_equal(v1, #[trigger] v2[j]) == count_equal(v2, v2[j])
}

/// Where `==` is plain equality, `count_equal` is the multiplicity in the multiset.
proof fn lemma_count_equal_multiset<T: PartialEq>(s: Seq<T>, x: T)
    requires
        forall|a: T, b: T| #[trigger] a.eq_spec(&b) <==> a == b,
    ensures
        count_equal(s, x) == s.to_multiset().count(x),
    decreases s.len(),
{
    broadcast use vstd::seq_lib::group_to_multiset_ensures;
    if s.len() == 0 {
        assert(s.to_multiset().len() == 0);
        assert(s.to_multiset() =~= vstd::multiset::Multiset::empty());
    } else {
        lemma_count_equal_multiset(s.drop_last(), x);
        assert(s =~= s.drop_last().push(s.last()));
        assert(s.to_multiset() =~= s.drop_last().to_multiset().insert(s.last()));
        assert(s.last().eq_spec(&x) <==> s.last() == x);
    }
}

/// Unordered equality is multiset equality where `==` is plain equality.
pub proof fn lemma_same_elements_multiset<T: PartialEq>(v1: Seq<T>, v2: Seq<T>)
    requires
        forall|a: T, b: T| #[trigger] a.eq_spec(&b) <==> a == b,
    ensures
        spec_same_elements(v1, v2) <==> v1.to_multiset() == v2.to_multiset(),
{
    broadcast use vstd::seq_lib::group_to_multiset_ensures;
    if spec_same_elements(v1, v2) {
        assert forall|x: T| v1.to_multiset().count(x) == v2.to_multiset().count(x) by {
            lemma_count_equal_multiset(v1, x);
            lemma_count_equal_multiset(v2, x);
            if v1.contains(x) {
                let i = choose|i: int| 0 <= i < v1.len() && v1[i] == x;
                assert(count_equal(v1, v1[i]) == count_equal(v2, v1[i]));
            } else if v2.contains(x) {
                let j = choose|j: int| 0 <= j < v2.len() && v2[j] == x;
                assert(count_equal(v1, v2[j]) == count_equal(v2, v2[j]));
            }
        }
        assert(v1.to_multiset() =~= v2.to_multiset());
    }
    if v1.to_multiset() == v2.to_multiset() {
        assert(v1.len() == v2.len()) by {
            assert(v1.to_multiset().len() == v1.len());
            assert(v2.to_multiset().len() == v2.len());
        }
        assert forall|i: int| 0 <= i < v1.len() implies count_equal(v1, #[trigger] v1[i]) == count_equal(v2, v1[i]) by {
            lemma_count_equal_multiset(v1, v1[i]);
            lemma_count_equal_multiset(v2, v1[i]);
        }
        assert forall|j: int| 0 <= j < v2.len() implies count_equal(v1, #[trigger] v2[j]) == count_equal(v2, v2[j]) by {
            lemma_count_equal_multiset(v1, v2[j]);
            lemma_count_equal_multiset(v2, v2[j]);
        }
    }
}

/// How many elements of `v` equal `x`.
fn count_in<T: PartialEq>(v: &[T], x: &T) -> (r: usize)
    requires
        T::obeys_eq_spec(),
    ensures
        r == count_equal(v@, *x),
{
    let mut c: usize = 0;
    let mut i: usize = 0;
    while i < v.len()
        invariant
            T::obeys_eq_spec(),
            i <= v@.len(),
            c == count_equal(v@.take(i as int), *x),
            c <= i,
        decreases v@.len() - i,
    {
        assert(v@.take(i + 1).drop_last() =~= v@.take(i as int));
        if v[i] == *x {
            c = c + 1;
        }
        i = i + 1;
    }
    assert(v@.take(v@.len() as int) =~= v@);
    c
}

/// Every element of `a` occurs as often in `a` as in `b`.
fn counts_agree<T: PartialEq>(a: &[T], b: &[T]) -> (r: bool)
    requires
        T::obeys_eq_spec(),
    ensures
        r == (forall|i: int| 0 <= i < a@.len() ==> count_equal(a@, #[trigger] a@[i]) == count_equal(b@, a@[i])),
{
    let mut i: usize = 0;
    while i < a.len()
        invariant
            T::obeys_eq_spec(),
            i <= a@.len(),
            forall|k: int| 0 <= k < i ==> count_equal(a@, #[trigger] a@[k]) == count_equal(b@, a@[k]),
        decreases a@.len() - i,
    {
        let ca = count_in(a, &a[i]);
        let cb = count_in(b, &a[i]);
        if ca != cb {
            return false;
        }
        i = i + 1;
    }
    true
}

/// Unordered equality for vectors (ignores ordering): the same elements, each as often,
/// in any order. Where `==` is plain equality this is equality of the multisets (see
/// `lemma_same_elements_multiset`).
pub fn vecs_eq<T: PartialEq>(v1: &[T], v2: &[T]) -> (r: bool)
    requires
        T::obeys_eq_spec(),
    ensures
        r == spec_same_elements(v1@, v2@),
{
    if v1.len() != v2.len() {
        return false;
    }
    let forward = counts_agree(v1, v2);
    let backward = counts_agree(v2, v1);
    forward && backward
}

} // verus!
