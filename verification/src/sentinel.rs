//! The duty to look at accumulated errors, as a value.
use core::convert::Infallible;
use core::fmt::Debug;
use vstd::pervasive::runtime_assert;
use vstd::prelude::*;

use crate::collector::{ErrorCollector, Propagate};
use crate::fallible::Fallible;
use crate::outcome::Outcome;

verus! {

/// What the destructor of a sentinel, or of an iterator over its errors, has to do.
///
/// The library decides; the code that owns the value at the end of its life carries the
/// decision out.
#[derive(Clone, Copy, Debug, PartialEq, Eq, Structural)]
pub enum DropVerdict {
    /// Nothing is owed, or a failure is already under way and must not be hidden by a second
    /// one: the value goes quietly.
    Quiet,
    /// A sentinel reached the end of its life without having been disposed of.
    Unhandled,
    /// An iterator reached the end of its life with `remaining` of its `total` errors not yet
    /// handed out.
    Unconsumed { remaining: usize, total: usize },
}

/// Represents errors which must be handled before this sentinel reaches the end of its life.
///
/// A sentinel is unhandled for as long as it exists: every way of disposing of it takes it by
/// value, and [`peek`](ErrorSentinel::peek) and
/// [`drop_verdict`](ErrorSentinel::drop_verdict), which only borrow it, discharge nothing.
/// The ways of disposing of a sentinel are:
///
/// - handling the errors with some custom logic: [`handle`](ErrorSentinel::handle);
/// - asserting that there are no errors: [`unwrap`](ErrorSentinel::unwrap) or
///   [`expect`](ErrorSentinel::expect);
/// - delegating the errors to another object: [`propagate`](ErrorSentinel::propagate),
///   [`into_fallible`](ErrorSentinel::into_fallible),
///   [`into_errors_iter`](ErrorSentinel::into_errors_iter);
/// - dropping them unseen: [`ignore`](ErrorSentinel::ignore).
///
/// The model of a sentinel is the sequence of its errors, oldest first.
pub struct ErrorSentinel<E> {
    errors: Vec<E>,
}

impl<E> View for ErrorSentinel<E> {
    type V = Seq<E>;

    closed spec fn view(&self) -> Seq<E> {
        self.errors@
    }
}

impl<E> ErrorSentinel<E> {
    /// Constructs a new unhandled `ErrorSentinel` with errors.
    pub fn new(errors: Vec<E>) -> (sentinel: Self)
        ensures
            sentinel@ == errors@,
    {
        ErrorSentinel { errors }
    }

    /// Constructs a new unhandled `ErrorSentinel` without any errors.
    pub fn new_empty() -> (sentinel: Self)
        ensures
            sentinel@ == Seq::<E>::empty(),
    {
        ErrorSentinel { errors: Vec::new() }
    }

    /// Handles the errors by executing a closure on the list of them, returning the value
    /// which it evaluates to.
    ///
    /// This counts as handling whatever the closure does with the errors, even nothing.
    pub fn handle<R>(self, handler: impl FnOnce(Vec<E>) -> R) -> (result: R)
        requires
            forall|errors: Vec<E>|
                errors@ == self@ ==> #[trigger] call_requires(handler, (errors,)),
        ensures
            exists|errors: Vec<E>|
                errors@ == self@ && #[trigger] call_ensures(handler, (errors,), result),
    {
        handler(self.errors)
    }

    /// Handles the errors by moving them, in order, behind those of an [`ErrorCollector`],
    /// postponing them to be handled later instead.
    pub fn propagate(self, other: &mut impl ErrorCollector<E>)
        ensures
            final(other).collected() == old(other).collected() + self@,
            final(other).payload() == old(other).payload(),
    {
        let ghost before = other.collected();
        let mut iter = self.into_errors_iter();
        while !iter.is_handled()
            invariant
                other.collected() + iter.remaining() == before + self@,
                other.payload() == old(other).payload(),
            decreases iter.remaining().len(),
        {
            let ghost rest = iter.remaining();
            let ghost sunk = other.collected();
            if let Some(error) = iter.next() {
                other.push_error(error);
                assert(sunk.push(error) + rest.drop_first() == sunk + rest);
            }
        }
        assert(other.collected() + iter.remaining() == other.collected());
    }

    /// Handles the errors by ignoring them, dropping the list of errors.
    ///
    /// This is an escape hatch. Where there should be no errors, prefer
    /// [`unwrap`](ErrorSentinel::unwrap) or [`expect`](ErrorSentinel::expect), which demand
    /// that there are none.
    pub fn ignore(self) {
    }

    /// Handles the errors by moving them into a new [`Fallible`] with a given value.
    ///
    /// This suits a procedure that accumulates errors in a sentinel while it computes, and
    /// at the end returns them with what it computed.
    pub fn into_fallible<T>(self, value: T) -> (out: Fallible<T, E>)
        ensures
            out.value() == value,
            out.errors() == self@,
    {
        let mut out = Fallible::new(value);
        self.propagate(&mut out);
        out
    }

    /// Handles the errors by moving them into a new [`Outcome`] with a given value.
    pub fn into_outcome<T>(self, value: T) -> (out: Outcome<T, E>)
        ensures
            out.value() == value,
            out.errors() == self@,
    {
        let mut out = Outcome::new(value);
        self.propagate(&mut out);
        out
    }

    /// Consumes this `ErrorSentinel` to create an [`ErrorSentinelIter`], enabling errors to be
    /// handled one by one.
    ///
    /// The duty moves to the iterator, which discharges it by handing out every error.
    pub fn into_errors_iter(self) -> (iter: ErrorSentinelIter<E>)
        ensures
            iter.remaining() == self@,
            iter.total() == self@.len(),
            iter.well_formed(),
    {
        let mut source = self.errors;
        let initial_len = source.len();
        let mut stack: Vec<E> = Vec::new();
        while source.len() > 0
            invariant
                source@ + stack@.reverse() == self@,
                initial_len == self@.len(),
            decreases source@.len(),
        {
            let ghost newer = stack@.reverse();
            if let Some(error) = source.pop() {
                stack.push(error);
                assert(stack@.reverse() == seq![error] + newer);
                assert(source@ + (seq![error] + newer) == self@);
            }
        }
        assert(stack@.reverse() == self@);
        ErrorSentinelIter { stack, initial_len }
    }

    /// Inspect the list of errors, without considering them handled.
    pub fn peek(&self) -> (errors: &[E])
        ensures
            errors@ == self@,
    {
        self.errors.as_slice()
    }

    /// Handles the errors by asserting that there are none.
    ///
    /// A caller that cannot show this must test [`peek`](ErrorSentinel::peek) first and fail
    /// on its own account. Code that was not verified and calls this with errors is stopped
    /// by the run-time assertion rather than served.
    pub fn unwrap(self) where E: Debug
        requires
            self@.len() == 0,
    {
        runtime_assert(self.errors.len() == 0);
    }

    /// Handles the errors by asserting that there are none; `msg` is what a caller that has
    /// to fail reports in place of the errors.
    pub fn expect(self, msg: &str) where E: Debug
        requires
            self@.len() == 0,
    {
        runtime_assert(self.errors.len() == 0);
    }

    /// What the destructor of this sentinel has to do, given whether a failure is already
    /// under way: a sentinel that still exists has not been handled.
    pub open spec fn spec_drop_verdict(&self, unwinding: bool) -> DropVerdict {
        if unwinding {
            DropVerdict::Quiet
        } else {
            DropVerdict::Unhandled
        }
    }

    /// Decides what the destructor of this sentinel has to do. `unwinding` says whether the
    /// thread is already failing for another reason, in which case nothing is added to that
    /// failure. Having no errors excuses nothing: an empty sentinel is owed handling too.
    pub fn drop_verdict(&self, unwinding: bool) -> (verdict: DropVerdict)
        ensures
            verdict == self.spec_drop_verdict(unwinding),
            verdict == DropVerdict::Quiet <==> unwinding,
    {
        if unwinding {
            DropVerdict::Quiet
        } else {
            DropVerdict::Unhandled
        }
    }
}

impl ErrorSentinel<Infallible> {
    /// Constructs an `ErrorSentinel` which does not and will never contain errors, its error
    /// type having no values.
    pub fn new_ok() -> (sentinel: Self)
        ensures
            sentinel@ == Seq::<Infallible>::empty(),
    {
        ErrorSentinel { errors: Vec::new() }
    }

    /// An alias for [`ignore`](ErrorSentinel::ignore) which is only available when the error
    /// type has no values, so that no error can ever be dropped by it.
    pub fn safely_ignore(self) {
        self.ignore()
    }
}

impl<E> ErrorCollector<E> for ErrorSentinel<E> {
    type WrappedInner = ();

    open spec fn collected(&self) -> Seq<E> {
        self@
    }

    open spec fn payload(&self) -> () {
        ()
    }

    fn push_error(&mut self, error: E) {
        self.errors.push(error);
    }
}

impl<E> Propagate<E> for ErrorSentinel<E> {
    fn propagate<C: ErrorCollector<E>>(self, other: &mut C) -> (inner: ()) {
        ErrorSentinel::propagate(self, other)
    }
}

/// Hands out the errors of an [`ErrorSentinel`] one by one, oldest first. Created with
/// [`ErrorSentinel::into_errors_iter`].
///
/// The errors count as handled once the iterator is exhausted: every single error must have
/// been handed out, whatever was done with it. Stopping early is no better than never having
/// looked.
pub struct ErrorSentinelIter<E> {
    /// The errors not yet handed out, the next one last.
    stack: Vec<E>,
    initial_len: usize,
}

impl<E> ErrorSentinelIter<E> {
    /// No more errors are left than the iterator started with. This holds of every iterator
    /// that [`ErrorSentinel::into_errors_iter`] made, however far it has been advanced.
    pub closed spec fn well_formed(&self) -> bool {
        self.stack@.len() <= self.initial_len
    }

    /// The errors not yet handed out, the next one first.
    pub closed spec fn remaining(&self) -> Seq<E> {
        self.stack@.reverse()
    }

    /// The number of errors that the iterator started with.
    pub closed spec fn total(&self) -> usize {
        self.initial_len
    }

    /// Hands out the next error, or `None` once all have been handed out.
    pub fn next(&mut self) -> (item: Option<E>)
        ensures
            final(self).total() == old(self).total(),
            old(self).well_formed() ==> final(self).well_formed(),
            old(self).remaining().len() > 0 ==> item == Some(old(self).remaining()[0])
                && final(self).remaining() == old(self).remaining().drop_first(),
            old(self).remaining().len() == 0 ==> item.is_none() && final(self).remaining()
                == old(self).remaining(),
    {
        let item = self.stack.pop();
        assert(item.is_some() ==> self.remaining() == old(self).remaining().drop_first());
        item
    }

    /// The exact number of errors not yet handed out.
    pub fn len(&self) -> (count: usize)
        ensures
            count == self.remaining().len(),
            self.well_formed() ==> count <= self.total(),
    {
        self.stack.len()
    }

    /// Whether the iterator is exhausted, and all errors have been handled.
    pub fn is_handled(&self) -> (handled: bool)
        ensures
            handled == (self.remaining().len() == 0),
    {
        self.len() == 0
    }

    /// What the destructor of this iterator has to do, given whether a failure is already
    /// under way.
    pub open spec fn spec_drop_verdict(&self, unwinding: bool) -> DropVerdict {
        if unwinding || self.remaining().len() == 0 {
            DropVerdict::Quiet
        } else {
            DropVerdict::Unconsumed {
                remaining: self.remaining().len() as usize,
                total: self.total(),
            }
        }
    }

    /// Decides what the destructor of this iterator has to do. `unwinding` says whether the
    /// thread is already failing for another reason, in which case nothing is added to that
    /// failure. Otherwise every error that was not handed out is reported as unhandled, with
    /// the number of them and the number that the iterator started with.
    pub fn drop_verdict(&self, unwinding: bool) -> (verdict: DropVerdict)
        ensures
            verdict == self.spec_drop_verdict(unwinding),
            verdict == DropVerdict::Quiet <==> unwinding || self.remaining().len() == 0,
    {
        let remaining = self.len();
        if unwinding || remaining == 0 {
            DropVerdict::Quiet
        } else {
            DropVerdict::Unconsumed { remaining, total: self.initial_len }
        }
    }
}

/// An iterator that has handed out `consumed` of the errors it started with, and is then let
/// go while no other failure is under way, is reported as unconsumed exactly when it has
/// handed out fewer than all of them, with the number left and the number it started with.
/// While another failure is under way it always goes quietly.
pub proof fn lemma_only_exhaustion_discharges<E>(
    iter: ErrorSentinelIter<E>,
    errors: Seq<E>,
    consumed: int,
)
    requires
        0 <= consumed <= errors.len(),
        iter.total() == errors.len(),
        iter.remaining() == errors.skip(consumed),
    ensures
        consumed < errors.len() ==> iter.spec_drop_verdict(false) == (DropVerdict::Unconsumed {
            remaining: (errors.len() - consumed) as usize,
            total: errors.len() as usize,
        }),
        consumed == errors.len() ==> iter.spec_drop_verdict(false) == DropVerdict::Quiet,
        iter.spec_drop_verdict(true) == DropVerdict::Quiet,
{
}

} // verus!
