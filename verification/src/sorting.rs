//! Sorting versions from oldest to latest.
//!
//! Versions that occupy the same position in the order, such as `1` and
//! `1.0`, keep the order in which they came.

use crate::version::Version;
use vstd::prelude::*;

verus! {

/// The versions of `s` come in ascending order.
pub open spec fn sorted(s: Seq<Version>) -> bool {
    forall|i: int, j: int| 0 <= i < j < s.len() ==> s[i].at_most(s[j])
}

/// The sequence `s` with `v` put behind the last of its versions that is
/// at most `v`, searching from the end.
pub open spec fn inserted(s: Seq<Version>, v: Version) -> Seq<Version>
    decreases s.len(),
{
    if s.len() == 0 || s.last().at_most(v) {
        s.push(v)
    } else {
        inserted(s.drop_last(), v).push(s.last())
    }
}

/// The versions of `s` in ascending order, those of the same position in
/// the order in which they stand in `s`.
pub open spec fn sort_of(s: Seq<Version>) -> Seq<Version>
    decreases s.len(),
{
    if s.len() == 0 {
        s
    } else {
        inserted(sort_of(s.drop_last()), s.last())
    }
}

/// Putting `v` at the index `k` is what `inserted` does, where the version
/// before `k` is at most `v` and `v` comes before all versions from `k` on.
proof fn lemma_inserted_at(s: Seq<Version>, v: Version, k: int)
    requires
        0 <= k <= s.len(),
        k > 0 ==> s[k - 1].at_most(v),
        forall|j: int| k <= j < s.len() ==> v.precedes(#[trigger] s[j]),
    ensures
        inserted(s, v) == s.insert(k, v),
    decreases s.len() - k,
{
    if k == s.len() {
        assert(s.push(v) =~= s.insert(k, v));
    } else {
        assert(v.precedes(s[s.len() - 1]));
        lemma_inserted_at(s.drop_last(), v, k);
        assert(s.drop_last().insert(k, v).push(s.last()) =~= s.insert(k, v));
    }
}

/// Sorts the versions from oldest to latest. Versions of the same position
/// in the order keep their order.
pub fn sort_versions(versions: Vec<Version>) -> (r: Vec<Version>)
    ensures
        r@ == sort_of(versions@),
{
    let mut out: Vec<Version> = Vec::new();
    let mut i: usize = 0;
    while i < versions.len()
        invariant
            i <= versions.len(),
            out@ == sort_of(versions@.take(i as int)),
        decreases versions.len() - i,
    {
        let v = versions[i];
        let mut k: usize = out.len();
        while k > 0 && v < out[k - 1]
            invariant
                k <= out.len(),
                forall|j: int| k <= j < out.len() ==> v.precedes(#[trigger] out@[j]),
            decreases k,
        {
            k -= 1;
        }
        proof {
            lemma_inserted_at(out@, v, k as int);
            assert(versions@.take(i + 1).drop_last() =~= versions@.take(i as int));
        }
        out.insert(k, v);
        i += 1;
    }
    assert(versions@.take(versions.len() as int) =~= versions@);
    out
}

/// Inserting a version adds one version and keeps the others.
pub proof fn lemma_inserted_permutes(s: Seq<Version>, v: Version)
    ensures
        inserted(s, v).len() == s.len() + 1,
        inserted(s, v).to_multiset() == s.to_multiset().insert(v),
    decreases s.len(),
{
    if s.len() == 0 || s.last().at_most(v) {
        vstd::seq_lib::to_multiset_build(s, v);
    } else {
        let t = s.drop_last();
        lemma_inserted_permutes(t, v);
        vstd::seq_lib::to_multiset_build(inserted(t, v), s.last());
        vstd::seq_lib::to_multiset_build(t, s.last());
        assert(t.push(s.last()) =~= s);
        assert(t.to_multiset().insert(v).insert(s.last()) =~= t.to_multiset().insert(
            s.last(),
        ).insert(v));
    }
}

/// The index at which `inserted` puts `v` into `s`.
pub open spec fn insert_index(s: Seq<Version>, v: Version) -> int
    decreases s.len(),
{
    if s.len() == 0 || s.last().at_most(v) {
        s.len() as int
    } else {
        insert_index(s.drop_last(), v)
    }
}

/// The version before the index of insertion is at most the inserted one,
/// and the inserted one comes before all versions behind it.
pub proof fn lemma_insert_index(s: Seq<Version>, v: Version)
    ensures
        0 <= insert_index(s, v) <= s.len(),
        insert_index(s, v) > 0 ==> s[insert_index(s, v) - 1].at_most(v),
        forall|j: int| insert_index(s, v) <= j < s.len() ==> v.precedes(#[trigger] s[j]),
        inserted(s, v) == s.insert(insert_index(s, v), v),
    decreases s.len(),
{
    let k = insert_index(s, v);
    if s.len() == 0 || s.last().at_most(v) {
    } else {
        let t = s.drop_last();
        lemma_insert_index(t, v);
        assert forall|j: int| k <= j < s.len() implies v.precedes(#[trigger] s[j]) by {
            if j < t.len() {
                assert(v.precedes(t[j]));
            }
        }
        assert(k > 0 ==> s[k - 1] == t[k - 1]);
    }
    lemma_inserted_at(s, v, k);
}

/// Inserting a version into an ascending sequence gives an ascending
/// sequence.
pub proof fn lemma_inserted_sorted(s: Seq<Version>, v: Version)
    requires
        sorted(s),
    ensures
        sorted(inserted(s, v)),
{
    let k = insert_index(s, v);
    let r = inserted(s, v);
    lemma_insert_index(s, v);
    assert forall|i: int, j: int| 0 <= i < j < r.len() implies r[i].at_most(r[j]) by {
        if j < k {
            assert(s[i].at_most(s[j]));
        } else if j == k {
            if i < k - 1 {
                assert(s[i].at_most(s[k - 1]));
            }
            crate::version::lemma_order_transitive(s[i], s[k - 1], v);
        } else if i < k {
            assert(s[i].at_most(s[j - 1]));
        } else if i == k {
            assert(v.precedes(s[j - 1]));
        } else {
            assert(s[i - 1].at_most(s[j - 1]));
        }
    }
}

/// The sorted sequence is in ascending order.
pub proof fn lemma_sort_of_sorted(s: Seq<Version>)
    ensures
        sorted(sort_of(s)),
    decreases s.len(),
{
    if s.len() > 0 {
        lemma_sort_of_sorted(s.drop_last());
        lemma_inserted_sorted(sort_of(s.drop_last()), s.last());
    }
}

/// The sorted sequence holds the versions of the given one, each as often
/// as it occurs there.
pub proof fn lemma_sort_of_permutes(s: Seq<Version>)
    ensures
        sort_of(s).len() == s.len(),
        sort_of(s).to_multiset() == s.to_multiset(),
    decreases s.len(),
{
    if s.len() > 0 {
        let t = s.drop_last();
        lemma_sort_of_permutes(t);
        lemma_inserted_permutes(sort_of(t), s.last());
        vstd::seq_lib::to_multiset_build(t, s.last());
        assert(t.push(s.last()) =~= s);
    }
}

/// Inserting a version keeps the order of the versions that share a
/// position: among them the inserted one comes last.
pub proof fn lemma_inserted_stable(s: Seq<Version>, v: Version, a: Version)
    ensures
        inserted(s, v).filter(|x: Version| x.same_position(a)) == if v.same_position(a) {
            s.filter(|x: Version| x.same_position(a)).push(v)
        } else {
            s.filter(|x: Version| x.same_position(a))
        },
    decreases s.len(),
{
    let p = |x: Version| x.same_position(a);
    if s.len() == 0 || s.last().at_most(v) {
        s.lemma_filter_push(v, p);
    } else {
        let t = s.drop_last();
        lemma_inserted_stable(t, v, a);
        inserted(t, v).lemma_filter_push(s.last(), p);
        t.lemma_filter_push(s.last(), p);
        assert(t.push(s.last()) =~= s);
        assert(!(p(v) && p(s.last())));
    }
}

/// Sorting is stable: the versions that share a position in the order
/// stand in the sorted sequence in the order in which they were given.
pub proof fn lemma_sort_of_stable(s: Seq<Version>, a: Version)
    ensures
        sort_of(s).filter(|x: Version| x.same_position(a)) == s.filter(
            |x: Version| x.same_position(a),
        ),
    decreases s.len(),
{
    let p = |x: Version| x.same_position(a);
    if s.len() > 0 {
        let t = s.drop_last();
        lemma_sort_of_stable(t, a);
        lemma_inserted_stable(sort_of(t), s.last(), a);
        t.lemma_filter_push(s.last(), p);
        assert(t.push(s.last()) =~= s);
    }
}

} // verus!
