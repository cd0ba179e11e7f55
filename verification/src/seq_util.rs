//! Small reusable lemmas about sequence filtering and first-match search,
//! used to relate the store's loops to their specifications.

use vstd::prelude::*;

verus! {

/// The first element of `s` satisfying `p`, if any.
pub open spec fn find_first<A>(s: Seq<A>, p: spec_fn(A) -> bool) -> Option<A>
    decreases s.len(),
{
    if s.len() == 0 {
        None
    } else if p(s[0]) {
        Some(s[0])
    } else {
        find_first(s.drop_first(), p)
    }
}

/// Stepping a first-match search one element forward.
pub proof fn lemma_find_first_step<A>(s: Seq<A>, p: spec_fn(A) -> bool, i: int)
    requires
        0 <= i < s.len(),
    ensures
        find_first(s.skip(i), p) == (if p(s[i]) {
            Some(s[i])
        } else {
            find_first(s.skip(i + 1), p)
        }),
{
    assert(s.skip(i).len() == s.len() - i);
    assert(s.skip(i)[0] == s[i]);
    assert(s.skip(i).drop_first() =~= s.skip(i + 1));
}

/// A search that ran off the end found nothing.
pub proof fn lemma_find_first_end<A>(s: Seq<A>, p: spec_fn(A) -> bool)
    ensures
        find_first(s.skip(s.len() as int), p) == None::<A>,
{
    assert(s.skip(s.len() as int).len() == 0);
}

/// Extending the filtered prefix by one element.
pub proof fn lemma_take_filter_step<A>(s: Seq<A>, p: spec_fn(A) -> bool, i: int)
    requires
        0 <= i < s.len(),
    ensures
        s.take(i + 1).filter(p) == (if p(s[i]) {
            s.take(i).filter(p).push(s[i])
        } else {
            s.take(i).filter(p)
        }),
{
    reveal(Seq::filter);
    assert(s.take(i + 1).len() == i + 1);
    assert(s.take(i + 1).drop_last() =~= s.take(i));
    assert(s.take(i + 1).last() == s[i]);
}

/// The whole sequence is its own full-length prefix.
pub proof fn lemma_take_all<A>(s: Seq<A>)
    ensures
        s.take(s.len() as int) =~= s,
{
}

/// No two elements of `s` share a key.
pub open spec fn unique_by<A, K>(s: Seq<A>, key: spec_fn(A) -> K) -> bool {
    forall|i: int, j: int| 0 <= i < j < s.len() ==> key(s[i]) != key(s[j])
}

/// Every element of the filtered sequence comes from the source.
pub proof fn lemma_filter_subset<A>(s: Seq<A>, p: spec_fn(A) -> bool)
    ensures
        forall|i: int|
            0 <= i < s.filter(p).len() ==> exists|j: int|
                0 <= j < s.len() && s[j] == #[trigger] s.filter(p)[i],
    decreases s.len(),
{
    reveal(Seq::filter);
    if s.len() > 0 {
        let sub = s.drop_last();
        lemma_filter_subset(sub, p);
        assert forall|i: int| 0 <= i < s.filter(p).len() implies exists|j: int|
            0 <= j < s.len() && s[j] == #[trigger] s.filter(p)[i] by {
            if i < sub.filter(p).len() {
                assert(s.filter(p)[i] == sub.filter(p)[i]);
                let j = choose|j: int| 0 <= j < sub.len() && sub[j] == sub.filter(p)[i];
                assert(s[j] == s.filter(p)[i]);
            } else {
                assert(s.filter(p)[i] == s.last());
                assert(s[s.len() - 1] == s.filter(p)[i]);
            }
        }
    }
}

/// Filtering keeps keys unique.
pub proof fn lemma_filter_unique_by<A, K>(s: Seq<A>, p: spec_fn(A) -> bool, key: spec_fn(A) -> K)
    requires
        unique_by(s, key),
    ensures
        unique_by(s.filter(p), key),
    decreases s.len(),
{
    reveal(Seq::filter);
    if s.len() > 0 {
        let sub = s.drop_last();
        assert(unique_by(sub, key));
        lemma_filter_unique_by(sub, p, key);
        if p(s.last()) {
            lemma_filter_subset(sub, p);
            let f = s.filter(p);
            assert forall|i: int, j: int| 0 <= i < j < f.len() implies key(f[i]) != key(f[j]) by {
                if j < f.len() - 1 {
                    assert(f[i] == sub.filter(p)[i] && f[j] == sub.filter(p)[j]);
                } else {
                    assert(f[j] == s.last());
                    assert(f[i] == sub.filter(p)[i]);
                    let k = choose|k: int| 0 <= k < sub.len() && sub[k] == sub.filter(p)[i];
                    assert(s[k] == f[i]);
                    assert(key(s[k]) != key(s[s.len() - 1]));
                }
            }
        }
    }
}

} // verus!
