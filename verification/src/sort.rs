use vstd::prelude::*;

verus! {

/// Where a stable insertion puts `x` into `s`: after the last element, counted from the back,
/// that is no later than `x`; at the front if there is none.
pub open spec fn insert_position<A>(s: Seq<A>, x: A, le: spec_fn(A, A) -> bool) -> int
    decreases s.len(),
{
    if s.len() == 0 {
        0
    } else if le(s.last(), x) {
        s.len() as int
    } else {
        insert_position(s.drop_last(), x, le)
    }
}

/// `s` with `x` inserted in its place.
pub open spec fn insert_in_order<A>(s: Seq<A>, x: A, le: spec_fn(A, A) -> bool) -> Seq<A> {
    s.insert(insert_position(s, x, le), x)
}

/// The stable sort of `s` by `le`: its elements inserted one after the other, each in its
/// place (so elements that `le` does not tell apart keep their order).
pub open spec fn stable_sort<A>(s: Seq<A>, le: spec_fn(A, A) -> bool) -> Seq<A>
    decreases s.len(),
{
    if s.len() == 0 {
        s
    } else {
        insert_in_order(stable_sort(s.drop_last(), le), s.last(), le)
    }
}

/// Any element of `s` is no later than any element after it.
pub open spec fn fully_sorted_by<A>(s: Seq<A>, le: spec_fn(A, A) -> bool) -> bool {
    forall|i: int, j: int| 0 <= i < j < s.len() ==> #[trigger] le(s[i], s[j])
}

/// `le` relates any two values one way or the other.
pub open spec fn total<A>(le: spec_fn(A, A) -> bool) -> bool {
    forall|a: A, b: A| #[trigger] le(a, b) || le(b, a)
}

/// `le` is transitive.
pub open spec fn transitive<A>(le: spec_fn(A, A) -> bool) -> bool {
    forall|a: A, b: A, c: A| #[trigger] le(a, b) && #[trigger] le(b, c) ==> le(a, c)
}

pub proof fn lemma_insert_position_bounds<A>(s: Seq<A>, x: A, le: spec_fn(A, A) -> bool)
    ensures
        0 <= insert_position(s, x, le) <= s.len(),
    decreases s.len(),
{
    if s.len() > 0 && !le(s.last(), x) {
        lemma_insert_position_bounds(s.drop_last(), x, le);
    }
}

/// Sorting keeps the elements: the result holds each as often as `s` does.
pub proof fn lemma_stable_sort_permutes<A>(s: Seq<A>, le: spec_fn(A, A) -> bool)
    ensures
        stable_sort(s, le).to_multiset() == s.to_multiset(),
        stable_sort(s, le).len() == s.len(),
    decreases s.len(),
{
    broadcast use vstd::seq_lib::to_multiset_insert, vstd::seq_lib::to_multiset_build;

    if s.len() > 0 {
        let rest = stable_sort(s.drop_last(), le);
        lemma_stable_sort_permutes(s.drop_last(), le);
        lemma_insert_position_bounds(rest, s.last(), le);
        assert(s == s.drop_last().push(s.last()));
    }
}

/// Inserting `x` in its place keeps a sequence sorted, where `le` is total and transitive.
pub proof fn lemma_insert_keeps_sorted<A>(s: Seq<A>, x: A, le: spec_fn(A, A) -> bool)
    requires
        total(le),
        transitive(le),
        fully_sorted_by(s, le),
    ensures
        fully_sorted_by(insert_in_order(s, x, le), le),
    decreases s.len(),
{
    lemma_insert_position_bounds(s, x, le);
    if s.len() == 0 {
        assert(insert_in_order(s, x, le) =~= seq![x]);
    } else if le(s.last(), x) {
        let r = insert_in_order(s, x, le);
        assert(r =~= s.push(x));
        assert forall|i: int, j: int| 0 <= i < j < r.len() implies #[trigger] le(r[i], r[j]) by {
            if j == s.len() && i < s.len() - 1 {
                assert(le(s[i], s[s.len() - 1]));
            }
        }
    } else {
        let t = s.drop_last();
        assert(fully_sorted_by(t, le));
        lemma_insert_keeps_sorted(t, x, le);
        lemma_insert_position_bounds(t, x, le);
        let p = insert_position(t, x, le);
        let rt = insert_in_order(t, x, le);
        let r = insert_in_order(s, x, le);
        assert(r =~= rt.push(s.last()));
        assert(le(x, s.last()));
        assert forall|i: int, j: int| 0 <= i < j < r.len() implies #[trigger] le(r[i], r[j]) by {
            if j == r.len() - 1 {
                if i == p {
                    assert(r[i] == x);
                } else if i < p {
                    assert(r[i] == t[i]);
                    assert(le(s[i], s[s.len() - 1]));
                } else {
                    assert(r[i] == t[i - 1]);
                    assert(le(s[i - 1], s[s.len() - 1]));
                }
            } else {
                assert(r[i] == rt[i] && r[j] == rt[j]);
            }
        }
    }
}

/// The stable sort is sorted, where `le` is total and transitive.
pub proof fn lemma_stable_sort_sorted<A>(s: Seq<A>, le: spec_fn(A, A) -> bool)
    requires
        total(le),
        transitive(le),
    ensures
        fully_sorted_by(stable_sort(s, le), le),
    decreases s.len(),
{
    if s.len() > 0 {
        lemma_stable_sort_sorted(s.drop_last(), le);
        lemma_insert_keeps_sorted(stable_sort(s.drop_last(), le), s.last(), le);
    }
}

} // verus!
