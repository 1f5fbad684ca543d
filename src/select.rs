//! Ordering a list of versions and picking the current one.
use crate::version::{lemma_version_cmp_antisym, lemma_version_le_trans, version_le, version_lt, Version};
use vstd::prelude::*;
use vstd::seq_lib::lemma_multiset_commutative;

verus! {

broadcast use vstd::seq_lib::group_to_multiset_ensures, vstd::multiset::group_multiset_axioms;

/// Each version has no higher precedence than any version after it.
pub open spec fn sorted(s: Seq<Version>) -> bool {
    forall|i: int, j: int| 0 <= i < j < s.len() ==> version_le(#[trigger] s[i]@, #[trigger] s[j]@)
}

/// A highest version of a list: one of its elements, of no lower precedence
/// than any other.
pub open spec fn is_maximum(v: Version, s: Seq<Version>) -> bool {
    &&& s.contains(v)
    &&& forall|i: int| 0 <= i < s.len() ==> version_le(#[trigger] s[i]@, v@)
}

proof fn lemma_insert_to_multiset<A>(s: Seq<A>, i: int, x: A)
    requires
        0 <= i <= s.len(),
    ensures
        s.insert(i, x).to_multiset() =~= s.to_multiset().insert(x),
{
    let a = s.subrange(0, i);
    let b = s.subrange(i, s.len() as int);
    assert(s =~= a + b);
    lemma_multiset_commutative(a, b);
    lemma_multiset_commutative(a.push(x), b);
    a.to_multiset_ensures();
}

/// Sorts versions ascending by precedence, keeping every element; versions
/// of equal precedence keep their order, so a sorted list comes back as it is.
pub fn sort_versions(versions: Vec<Version>) -> (r: Vec<Version>)
    ensures
        sorted(r@),
        r@.to_multiset() =~= versions@.to_multiset(),
        sorted(versions@) ==> r@ == versions@,
{
    let ghost orig = versions@;
    let mut input = versions;
    let mut out: Vec<Version> = Vec::new();
    let ghost mut k: int = 0;
    while input.len() > 0
        invariant
            sorted(out@),
            out@.to_multiset().add(input@.to_multiset()) =~= orig.to_multiset(),
            0 <= k <= orig.len(),
            input@ == orig.skip(k),
            sorted(orig) ==> out@ == orig.take(k),
        decreases input@.len(),
    {
        let ghost before = input@;
        let x = input.remove(0);
        proof {
            assert(before =~= seq![x] + input@);
            lemma_multiset_commutative(seq![x], input@);
            assert(input@ =~= orig.skip(k + 1));
        }
        let mut j: usize = out.len();
        while j > 0 && x.precedes(&out[j - 1])
            invariant
                j <= out@.len(),
                sorted(out@),
                forall|m: int| j <= m < out@.len() ==> version_lt(x@, #[trigger] out@[m]@),
            decreases j,
        {
            j = j - 1;
        }
        let ghost prev = out@;
        proof {
            if j > 0 {
                lemma_version_cmp_antisym(x@, prev[j - 1]@);
                assert forall|m: int| 0 <= m < j implies version_le(#[trigger] prev[m]@, x@) by {
                    if m < j - 1 {
                        lemma_version_le_trans(prev[m]@, prev[j - 1]@, x@);
                    }
                }
            }
            if sorted(orig) && prev.len() > 0 {
                assert(x == orig[k]);
                assert(prev[prev.len() - 1] == orig[k - 1]);
                lemma_version_cmp_antisym(x@, orig[k - 1]@);
            }
            lemma_insert_to_multiset(prev, j as int, x);
        }
        out.insert(j, x);
        proof {
            assert forall|a: int, b: int| 0 <= a < b < out@.len() implies version_le(
                #[trigger] out@[a]@,
                #[trigger] out@[b]@,
            ) by {
                if a < j && b > j {
                    lemma_version_le_trans(prev[a]@, x@, prev[b - 1]@);
                }
            }
            if sorted(orig) {
                assert(out@ =~= orig.take(k + 1));
            }
            k = k + 1;
        }
    }
    proof {
        assert(orig.skip(k).len() == 0);
        assert(orig.take(k) =~= orig);
    }
    out
}

/// The current version: a highest version of the list, or `None` when the
/// list is empty.
pub fn select_current(versions: Vec<Version>) -> (r: Option<Version>)
    ensures
        versions@.len() == 0 <==> r is None,
        r matches Some(v) ==> is_maximum(v, versions@),
        versions@.len() == 1 ==> r == Some(versions@[0]),
{
    let mut sorted_versions = sort_versions(versions);
    let ghost all = sorted_versions@;
    let r = sorted_versions.pop();
    proof {
        if r is Some {
            let v = r->Some_0;
            let s = all;
            assert(s =~= sorted_versions@.push(v));
            assert(s[s.len() - 1] == v);
            assert(s.contains(v));
            s.to_multiset_ensures();
            versions@.to_multiset_ensures();
            assert(s.to_multiset().count(v) > 0);
            assert(s.to_multiset() == versions@.to_multiset());
            assert(versions@.to_multiset().count(v) > 0);
            assert(versions@.contains(v));
            assert forall|i: int| 0 <= i < versions@.len() implies version_le(
                #[trigger] versions@[i]@,
                v@,
            ) by {
                let w = versions@[i];
                assert(versions@.contains(w));
                assert(versions@.to_multiset().count(w) > 0);
                assert(s.to_multiset().count(w) > 0);
                assert(s.contains(w));
                let k = choose|k: int| 0 <= k < s.len() && s[k] == w;
                if k < s.len() - 1 {
                    assert(version_le(s[k]@, s[s.len() - 1]@));
                } else {
                    lemma_version_cmp_antisym(v@, v@);
                }
            }
        } else {
            all.to_multiset_ensures();
            versions@.to_multiset_ensures();
        }
    }
    r
}

} // verus!
