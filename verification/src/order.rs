//! Stable sorting, stated over sequences.

use vstd::prelude::*;

verus! {

/// `s` with `x` put before the elements at its end that `x` comes before.
pub open spec fn insert_by<T>(s: Seq<T>, x: T, lt: spec_fn(T, T) -> bool) -> Seq<T>
    decreases s.len(),
{
    if s.len() > 0 && lt(x, s.last()) {
        insert_by(s.drop_last(), x, lt).push(s.last())
    } else {
        s.push(x)
    }
}

/// `s` in order, elements that neither precedes the other left as they stood.
pub open spec fn sort_by<T>(s: Seq<T>, lt: spec_fn(T, T) -> bool) -> Seq<T>
    decreases s.len(),
{
    if s.len() == 0 {
        seq![]
    } else {
        insert_by(sort_by(s.drop_last(), lt), s.last(), lt)
    }
}

/// No element comes before one that stands to its left.
pub open spec fn sorted<T>(s: Seq<T>, lt: spec_fn(T, T) -> bool) -> bool {
    forall|i: int, j: int| 0 <= i < j < s.len() ==> !lt(#[trigger] s[j], #[trigger] s[i])
}

/// `lt` orders the elements: it is asymmetric, and where it does not hold is
/// transitive too.
pub open spec fn orders<T>(lt: spec_fn(T, T) -> bool) -> bool {
    &&& forall|a: T, b: T| #[trigger] lt(a, b) ==> !lt(b, a)
    &&& forall|a: T, b: T, c: T| !#[trigger] lt(b, a) && !#[trigger] lt(c, b) ==> !lt(c, a)
}

/// Neither of the two comes before the other.
pub open spec fn tied<T>(a: T, b: T, lt: spec_fn(T, T) -> bool) -> bool {
    !lt(a, b) && !lt(b, a)
}

/// Where everything from `at` on comes after `x` and what stands just before
/// `at` does not, `x` is put at `at`.
pub proof fn lemma_insert_at<T>(s: Seq<T>, x: T, lt: spec_fn(T, T) -> bool, at: int)
    requires
        0 <= at <= s.len(),
        forall|i: int| at <= i < s.len() ==> lt(x, #[trigger] s[i]),
        at > 0 ==> !lt(x, s[at - 1]),
    ensures
        insert_by(s, x, lt) == s.insert(at, x),
    decreases s.len(),
{
    if at < s.len() {
        assert(lt(x, s[s.len() - 1]));
        lemma_insert_at(s.drop_last(), x, lt, at);
        assert(s.drop_last().insert(at, x).push(s.last()) =~= s.insert(at, x));
    } else {
        assert(s.insert(at, x) =~= s.push(x));
    }
}

proof fn lemma_insert_keeps<T>(s: Seq<T>, x: T, lt: spec_fn(T, T) -> bool)
    ensures
        insert_by(s, x, lt).to_multiset() == s.to_multiset().insert(x),
        insert_by(s, x, lt).len() == s.len() + 1,
    decreases s.len(),
{
    broadcast use vstd::seq_lib::group_to_multiset_ensures;

    if s.len() > 0 && lt(x, s.last()) {
        lemma_insert_keeps(s.drop_last(), x, lt);
        assert(s.drop_last().push(s.last()) =~= s);
        assert(s.to_multiset() =~= s.drop_last().to_multiset().insert(s.last()));
        assert(insert_by(s, x, lt).to_multiset() =~= s.to_multiset().insert(x));
    }
}

proof fn lemma_insert_sorted<T>(s: Seq<T>, x: T, lt: spec_fn(T, T) -> bool)
    requires
        orders(lt),
        sorted(s, lt),
    ensures
        sorted(insert_by(s, x, lt), lt),
        forall|i: int|
            0 <= i < insert_by(s, x, lt).len() ==> #[trigger] insert_by(s, x, lt)[i] == x
                || exists|j: int| 0 <= j < s.len() && insert_by(s, x, lt)[i] == #[trigger] s[j],
    decreases s.len(),
{
    let r = insert_by(s, x, lt);
    if s.len() > 0 && lt(x, s.last()) {
        let front = s.drop_last();
        lemma_insert_sorted(front, x, lt);
        let f = insert_by(front, x, lt);
        assert forall|i: int| 0 <= i < r.len() implies #[trigger] r[i] == x || exists|j: int|
            0 <= j < s.len() && r[i] == #[trigger] s[j] by {
            if i < f.len() {
                assert(r[i] == f[i]);
                if f[i] != x {
                    let j = choose|j: int| 0 <= j < front.len() && f[i] == #[trigger] front[j];
                    assert(r[i] == s[j]);
                }
            } else {
                assert(r[i] == s[s.len() - 1]);
            }
        }
        assert forall|i: int, j: int| 0 <= i < j < r.len() implies !lt(
            #[trigger] r[j],
            #[trigger] r[i],
        ) by {
            if j < f.len() {
                assert(r[j] == f[j] && r[i] == f[i]);
            } else {
                assert(r[j] == s.last());
                assert(r[i] == f[i]);
                if f[i] != x {
                    let k = choose|k: int| 0 <= k < front.len() && f[i] == #[trigger] front[k];
                    assert(s[k] == front[k]);
                    assert(!lt(s[s.len() - 1], s[k]));
                }
            }
        }
    } else {
        assert forall|i: int| 0 <= i < r.len() implies #[trigger] r[i] == x || exists|j: int|
            0 <= j < s.len() && r[i] == #[trigger] s[j] by {
            if i < s.len() {
                assert(r[i] == s[i]);
            }
        }
        assert forall|i: int, j: int| 0 <= i < j < r.len() implies !lt(
            #[trigger] r[j],
            #[trigger] r[i],
        ) by {
            if j < s.len() {
                assert(r[j] == s[j] && r[i] == s[i]);
            } else {
                assert(r[i] == s[i]);
                assert(!lt(x, s[s.len() - 1]));
                if i < s.len() - 1 {
                    assert(!lt(s[s.len() - 1], s[i]));
                }
            }
        }
    }
}

/// Sorting keeps the elements, with their multiplicities, and puts them in
/// order.
pub proof fn law_sort<T>(s: Seq<T>, lt: spec_fn(T, T) -> bool)
    requires
        orders(lt),
    ensures
        sort_by(s, lt).to_multiset() == s.to_multiset(),
        sort_by(s, lt).len() == s.len(),
        sorted(sort_by(s, lt), lt),
    decreases s.len(),
{
    broadcast use vstd::seq_lib::group_to_multiset_ensures;

    if s.len() > 0 {
        law_sort(s.drop_last(), lt);
        lemma_insert_keeps(sort_by(s.drop_last(), lt), s.last(), lt);
        lemma_insert_sorted(sort_by(s.drop_last(), lt), s.last(), lt);
        assert(s.drop_last().push(s.last()) =~= s);
    }
}

proof fn lemma_insert_stable<T>(s: Seq<T>, x: T, z: T, lt: spec_fn(T, T) -> bool)
    requires
        orders(lt),
    ensures
        ({
            let p = |y: T| tied(z, y, lt);
            insert_by(s, x, lt).filter(p) == (if p(x) {
                s.filter(p).push(x)
            } else {
                s.filter(p)
            })
        }),
    decreases s.len(),
{
    reveal(Seq::filter);
    let p = |y: T| tied(z, y, lt);
    let r = insert_by(s, x, lt);
    if s.len() > 0 && lt(x, s.last()) {
        lemma_insert_stable(s.drop_last(), x, z, lt);
        assert(r.drop_last() =~= insert_by(s.drop_last(), x, lt));
        if p(x) {
            assert(!lt(x, z) && !lt(z, x));
            assert(!p(s.last()));
        }
    } else {
        assert(r.drop_last() =~= s);
    }
}

/// Sorting leaves elements that neither precedes the other as they stood.
pub proof fn law_sort_stable<T>(s: Seq<T>, z: T, lt: spec_fn(T, T) -> bool)
    requires
        orders(lt),
    ensures
        sort_by(s, lt).filter(|y: T| tied(z, y, lt)) == s.filter(|y: T| tied(z, y, lt)),
    decreases s.len(),
{
    reveal(Seq::filter);
    let p = |y: T| tied(z, y, lt);
    if s.len() > 0 {
        law_sort_stable(s.drop_last(), z, lt);
        lemma_insert_stable(sort_by(s.drop_last(), lt), s.last(), z, lt);
    }
}

} // verus!
