//! The capability of taking errors in, and the arithmetic of error lists.
use vstd::prelude::*;

verus! {

/// Something which tracks a collection of errors.
///
/// The model of a collector is the sequence of errors it holds, oldest first, and the payload
/// that it wraps beside them (the unit value for a pure list of errors).
pub trait ErrorCollector<E>: Sized {
    /// The type of the payload, which [`Propagate::propagate`] returns.
    type WrappedInner;

    /// The errors collected so far, in the order in which they were pushed.
    spec fn collected(&self) -> Seq<E>;

    /// The payload that is wrapped beside the errors.
    spec fn payload(&self) -> Self::WrappedInner;

    /// Adds a new error behind those already collected. The payload is left alone.
    fn push_error(&mut self, error: E)
        ensures
            final(self).collected() == old(self).collected().push(error),
            final(self).payload() == old(self).payload(),
    ;
}

/// A collector that can be emptied into another one.
///
/// This is the one way in which errors move between the accumulators of unrelated
/// computations: none is lost, none is doubled, and their order is kept.
pub trait Propagate<E>: ErrorCollector<E> {
    /// Consumes this collector and pushes all of its errors, in order, behind those of another
    /// collector. Returns the payload that this collector wrapped.
    fn propagate<C: ErrorCollector<E>>(self, other: &mut C) -> (inner: Self::WrappedInner)
        ensures
            final(other).collected() == old(other).collected() + self.collected(),
            final(other).payload() == old(other).payload(),
            inner == self.payload(),
    ;
}

/// Moves every error of `errors`, first to last, behind those of `other`.
pub(crate) fn drain_into<E, C: ErrorCollector<E>>(errors: Vec<E>, other: &mut C)
    ensures
        final(other).collected() == old(other).collected() + errors@,
        final(other).payload() == old(other).payload(),
{
    let ghost before = other.collected();
    let ghost all = errors@;
    for error in it: errors.into_iter()
        invariant
            it.seq() == all,
            other.collected() == before + all.take(it.index() as int),
            other.payload() == old(other).payload(),
    {
        other.push_error(error);
        assert(all.take(it.index() + 1) == all.take(it.index() as int).push(error));
    }
}

/// The concatenation of the lists of `lists`, in index order.
pub open spec fn joined<E>(lists: Seq<Seq<E>>) -> Seq<E>
    decreases lists.len(),
{
    if lists.len() == 0 {
        Seq::empty()
    } else {
        joined(lists.drop_last()) + lists.last()
    }
}

/// The sum of the lengths of the lists of `lists`.
pub open spec fn total_count<E>(lists: Seq<Seq<E>>) -> nat
    decreases lists.len(),
{
    if lists.len() == 0 {
        0
    } else {
        total_count(lists.drop_last()) + lists.last().len()
    }
}

/// Joining one more list puts its errors behind all those joined before.
pub proof fn lemma_joined_push<E>(lists: Seq<Seq<E>>, last: Seq<E>)
    ensures
        joined(lists.push(last)) == joined(lists) + last,
        total_count(lists.push(last)) == total_count(lists) + last.len(),
{
    assert(lists.push(last).drop_last() == lists);
}

/// Joining two lists is appending the second to the first, which is what combining two
/// containers does to their errors.
pub proof fn lemma_joined_pair<E>(first: Seq<E>, second: Seq<E>)
    ensures
        joined(seq![first, second]) == first + second,
        total_count(seq![first, second]) == first.len() + second.len(),
{
    let none = Seq::<Seq<E>>::empty();
    lemma_joined_push(none, first);
    lemma_joined_push(none.push(first), second);
    assert(seq![first, second] == none.push(first).push(second));
    assert(joined(none) + first == first);
}

/// No error is lost or doubled by joining: the joined list is as long as all the lists
/// together.
pub proof fn lemma_joined_len<E>(lists: Seq<Seq<E>>)
    ensures
        joined(lists).len() == total_count(lists),
    decreases lists.len(),
{
    if lists.len() > 0 {
        lemma_joined_len(lists.drop_last());
    }
}

/// Order is kept by joining: the `j`-th error of the `i`-th list stands in the joined list
/// behind all the errors of the lists before it and behind the first `j` of its own.
pub proof fn lemma_joined_index<E>(lists: Seq<Seq<E>>, i: int, j: int)
    requires
        0 <= i < lists.len(),
        0 <= j < lists[i].len(),
    ensures
        total_count(lists.take(i)) + j < joined(lists).len(),
        joined(lists)[total_count(lists.take(i)) + j] == lists[i][j],
    decreases lists.len(),
{
    let front = lists.drop_last();
    lemma_joined_len(front);
    lemma_joined_len(lists);
    if i == lists.len() - 1 {
        assert(lists.take(i) == front);
    } else {
        lemma_joined_index(front, i, j);
        assert(front.take(i) == lists.take(i));
    }
}

} // verus!
