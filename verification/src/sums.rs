//! Sums of a projection over a sequence, with the bookkeeping lemmas used
//! by the food-conservation arguments.

use vstd::prelude::*;

verus! {

/// Sum of `f` over all elements of `s`.
pub open spec fn seq_sum<T>(s: Seq<T>, f: spec_fn(T) -> int) -> int
    decreases s.len(),
{
    if s.len() == 0 {
        0
    } else {
        f(s[0]) + seq_sum(s.drop_first(), f)
    }
}

/// Replacing one element changes the sum by the difference at that spot.
pub proof fn lemma_seq_sum_update<T>(s: Seq<T>, f: spec_fn(T) -> int, i: int, v: T)
    requires
        0 <= i < s.len(),
    ensures
        seq_sum(s.update(i, v), f) == seq_sum(s, f) - f(s[i]) + f(v),
    decreases s.len(),
{
    if i == 0 {
        assert(s.update(0, v).drop_first() =~= s.drop_first());
    } else {
        assert(s.update(i, v).drop_first() =~= s.drop_first().update(i - 1, v));
        lemma_seq_sum_update(s.drop_first(), f, i - 1, v);
    }
}

/// Removing one element subtracts exactly its contribution.
pub proof fn lemma_seq_sum_remove<T>(s: Seq<T>, f: spec_fn(T) -> int, i: int)
    requires
        0 <= i < s.len(),
    ensures
        seq_sum(s.remove(i), f) == seq_sum(s, f) - f(s[i]),
    decreases s.len(),
{
    if i == 0 {
        assert(s.remove(0) =~= s.drop_first());
    } else {
        assert(s.remove(i).drop_first() =~= s.drop_first().remove(i - 1));
        lemma_seq_sum_remove(s.drop_first(), f, i - 1);
    }
}

/// Appending one element adds exactly its contribution.
pub proof fn lemma_seq_sum_push<T>(s: Seq<T>, f: spec_fn(T) -> int, v: T)
    ensures
        seq_sum(s.push(v), f) == seq_sum(s, f) + f(v),
    decreases s.len(),
{
    if s.len() == 0 {
        assert(s.push(v)[0] == v);
        assert(s.push(v).drop_first() =~= Seq::<T>::empty());
        assert(seq_sum(s.push(v), f) == f(v) + seq_sum(Seq::<T>::empty(), f));
    } else {
        assert(s.push(v)[0] == s[0]);
        assert(s.push(v).drop_first() =~= s.drop_first().push(v));
        lemma_seq_sum_push(s.drop_first(), f, v);
    }
}

/// A sum of pointwise nonnegative contributions is nonnegative.
pub proof fn lemma_seq_sum_nonneg<T>(s: Seq<T>, f: spec_fn(T) -> int)
    requires
        forall|i: int| 0 <= i < s.len() ==> #[trigger] f(s[i]) >= 0,
    ensures
        seq_sum(s, f) >= 0,
    decreases s.len(),
{
    if s.len() > 0 {
        assert(f(s[0]) >= 0);
        assert(forall|i: int|
            0 <= i < s.drop_first().len() ==> #[trigger] f(s.drop_first()[i]) == f(s[i + 1]));
        lemma_seq_sum_nonneg(s.drop_first(), f);
    }
}


/// In a sum of nonnegative contributions, each element's contribution is
/// at most the whole sum.
pub proof fn lemma_seq_sum_element_le<T>(s: Seq<T>, f: spec_fn(T) -> int, i: int)
    requires
        forall|j: int| 0 <= j < s.len() ==> #[trigger] f(s[j]) >= 0,
        0 <= i < s.len(),
    ensures
        f(s[i]) <= seq_sum(s, f),
    decreases s.len(),
{
    assert(forall|j: int|
        0 <= j < s.drop_first().len() ==> #[trigger] f(s.drop_first()[j]) == f(s[j + 1]));
    lemma_seq_sum_nonneg(s.drop_first(), f);
    if i > 0 {
        lemma_seq_sum_element_le(s.drop_first(), f, i - 1);
        assert(f(s.drop_first()[i - 1]) == f(s[i]));
    }
}

} // verus!
