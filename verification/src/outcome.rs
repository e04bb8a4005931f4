//! A value that counts as failed when errors were met while it was obtained.
use core::fmt::Debug;
use vstd::pervasive::runtime_assert;
use vstd::prelude::*;

use crate::collector::{drain_into, joined, lemma_joined_push, ErrorCollector, Propagate};
use crate::sentinel::ErrorSentinel;

verus! {

/// Contains a value, and any errors produced while obtaining that value.
///
/// An `Outcome` can be used like a `Result` that has both its variants at the same time. This
/// suits procedures which should gather as many errors as they can before they fail, such as
/// parsing.
///
/// An `Outcome` is made with [`new`](Outcome::new), with
/// [`new_with_errors`](Outcome::new_with_errors) or, while errors are still being met, with
/// [`build`](Outcome::build). It is transformed and combined with [`map`](Outcome::map),
/// [`map_errors`](Outcome::map_errors), [`propagate`](Outcome::propagate),
/// [`integrate`](Outcome::integrate), [`zip`](Outcome::zip) and
/// [`from_iter`](Outcome::from_iter). It is taken apart with [`finalize`](Outcome::finalize),
/// which always gives the value, with [`into_result`](Outcome::into_result), which gives the
/// value only where there is no error, or with [`unwrap`](Outcome::unwrap) and
/// [`expect`](Outcome::expect), which demand that there is none.
///
/// The model of an `Outcome` is its value and the sequence of its errors, oldest first.
#[derive(Debug, Clone, Hash, PartialEq, Eq)]
pub struct Outcome<T, E> {
    value: T,
    errors: Vec<E>,
}

impl<T, E> Outcome<T, E> {
    /// The value that is held.
    pub closed spec fn value(&self) -> T {
        self.value
    }

    /// The errors that are held, in the order in which they occurred.
    pub closed spec fn errors(&self) -> Seq<E> {
        self.errors@
    }

    /// Whether `out` is what [`map`](Outcome::map) may give with `func`: the value is one
    /// that `func` gives for the value held, and the errors are the same.
    pub open spec fn maps_to<R, F: FnOnce(T) -> R>(&self, func: F, out: Outcome<R, E>) -> bool {
        &&& call_ensures(func, (self.value(),), out.value())
        &&& out.errors() == self.errors()
    }

    /// Whether `out` is what [`map_errors`](Outcome::map_errors) may give with `func`: the
    /// value is the same, and each error is one that `func` gives for the error at the same
    /// place.
    pub open spec fn maps_errors_to<R, F: FnMut(E) -> R>(
        &self,
        func: F,
        out: Outcome<T, R>,
    ) -> bool {
        &&& out.value() == self.value()
        &&& out.errors().len() == self.errors().len()
        &&& forall|i: int|
            0 <= i < self.errors().len() ==> call_ensures(
                func,
                (self.errors()[i],),
                #[trigger] out.errors()[i],
            )
    }

    /// Constructs a new `Outcome` with a value and no errors.
    #[must_use]
    pub fn new(value: T) -> (out: Self)
        ensures
            out.value() == value,
            out.errors() == Seq::<E>::empty(),
    {
        Outcome { value, errors: Vec::new() }
    }

    /// Constructs a new `Outcome` with some errors.
    #[must_use]
    pub fn new_with_errors(value: T, errors: Vec<E>) -> (out: Self)
        ensures
            out.value() == value,
            out.errors() == errors@,
    {
        Outcome { value, errors }
    }

    /// Constructs a new `Outcome` by accumulating errors over time, and finally returning
    /// some value.
    ///
    /// `func` is run on an empty sentinel, into which it pushes errors of its own or
    /// propagates those of other containers. The result holds the value that `func` returned
    /// and the errors that it left in the sentinel.
    #[must_use]
    pub fn build<F>(func: F) -> (out: Self) where F: FnOnce(&mut ErrorSentinel<E>) -> T
        requires
            forall|sentinel: &mut ErrorSentinel<E>|
                (*sentinel)@ == Seq::<E>::empty() ==> call_requires(func, (sentinel,)),
        ensures
            exists|sentinel: &mut ErrorSentinel<E>|
                {
                    &&& (*sentinel)@ == Seq::<E>::empty()
                    &&& call_ensures(func, (sentinel,), out.value())
                    &&& out.errors() == (*final(sentinel))@
                },
    {
        let mut sentinel = ErrorSentinel::new_empty();
        let value = func(&mut sentinel);
        sentinel.into_outcome(value)
    }

    /// Adds a new error to this `Outcome`, behind those already held.
    pub fn push_error(&mut self, error: E)
        ensures
            final(self).errors() == old(self).errors().push(error),
            final(self).value() == old(self).value(),
    {
        self.errors.push(error);
    }

    /// Moves the errors from this `Outcome`, in order, behind those of an
    /// [`ErrorCollector`], and unwraps it to return its value.
    #[must_use]
    pub fn propagate(self, other: &mut impl ErrorCollector<E>) -> (value: T)
        ensures
            value == self.value(),
            final(other).collected() == old(other).collected() + self.errors(),
            final(other).payload() == old(other).payload(),
    {
        drain_into(self.errors, other);
        self.value
    }

    /// Moves the errors from this `Outcome`, in order, behind those of another `Outcome`,
    /// and folds the value of this one into the value of the other with `func`.
    pub fn integrate<OT>(self, other: &mut Outcome<OT, E>, func: impl FnOnce(&mut OT, T))
        requires
            forall|target: &mut OT|
                *target == old(other).value() ==> call_requires(func, (target, self.value())),
        ensures
            exists|target: &mut OT|
                {
                    &&& *target == old(other).value()
                    &&& call_ensures(func, (target, self.value()), ())
                    &&& final(other).value() == *final(target)
                },
            final(other).errors() == old(other).errors() + self.errors(),
    {
        func(&mut other.value, self.value);
        let mut errors = self.errors;
        other.errors.append(&mut errors);
    }

    /// Consumes this `Outcome` and another one, returning a new `Outcome` with their values
    /// as a tuple `(this, other)` and the errors of this one followed by those of the other.
    #[must_use]
    pub fn zip<OT>(self, other: Outcome<OT, E>) -> (out: Outcome<(T, OT), E>)
        ensures
            out.value() == (self.value(), other.value()),
            out.errors() == self.errors() + other.errors(),
    {
        let mut errors = self.errors;
        let mut behind = other.errors;
        errors.append(&mut behind);
        Outcome::new_with_errors((self.value, other.value), errors)
    }

    /// Applies a function to the value within this `Outcome`. The errors pass unchanged.
    #[must_use]
    pub fn map<R>(self, func: impl FnOnce(T) -> R) -> (out: Outcome<R, E>)
        requires
            call_requires(func, (self.value(),)),
        ensures
            self.maps_to(func, out),
    {
        Outcome::new_with_errors(func(self.value), self.errors)
    }

    /// Applies a function to each of the errors within this `Outcome`, in order. The value
    /// is untouched.
    #[must_use]
    pub fn map_errors<R>(self, mut func: impl FnMut(E) -> R) -> (out: Outcome<T, R>)
        requires
            forall|i: int|
                0 <= i < self.errors().len() ==> #[trigger] call_requires(
                    func,
                    (self.errors()[i],),
                ),
        ensures
            self.maps_errors_to(func, out),
    {
        let ghost all = self.errors@;
        let ghost given = func;
        assert(all == self.errors());
        let mut mapped: Vec<R> = Vec::new();
        for error in it: self.errors.into_iter()
            invariant
                it.seq() == all,
                func == given,
                forall|i: int| 0 <= i < all.len() ==> #[trigger] call_requires(func, (all[i],)),
                mapped@.len() == it.index(),
                forall|i: int|
                    0 <= i < it.index() ==> call_ensures(func, (all[i],), #[trigger] mapped@[i]),
        {
            let image = func(error);
            mapped.push(image);
        }
        Outcome::new_with_errors(self.value, mapped)
    }

    /// Extracts the inner value of an `Outcome` that has no errors.
    ///
    /// A caller that cannot show this must test [`is_success`](Outcome::is_success) first and
    /// fail on its own account, or use [`into_result`](Outcome::into_result). Code that was
    /// not verified and calls this with errors is stopped by the run-time assertion rather
    /// than served.
    pub fn unwrap(self) -> (value: T) where E: Debug
        requires
            self.errors().len() == 0,
        ensures
            value == self.value(),
    {
        runtime_assert(self.errors.len() == 0);
        self.value
    }

    /// Extracts the inner value of an `Outcome` that has no errors; `msg` is what a caller
    /// that has to fail reports in place of the errors.
    pub fn expect(self, msg: &str) -> (value: T) where E: Debug
        requires
            self.errors().len() == 0,
        ensures
            value == self.value(),
    {
        runtime_assert(self.errors.len() == 0);
        self.value
    }

    /// Converts this `Outcome` into a [`Result`]:
    ///
    /// - If there are no errors, produces an [`Ok`] with the value.
    /// - Otherwise, produces an [`Err`] with an [`ErrorSentinel`] that holds exactly the
    ///   errors, discarding the value. The sentinel must be disposed of in its turn.
    #[must_use]
    pub fn into_result(self) -> (result: Result<T, ErrorSentinel<E>>)
        ensures
            match result {
                Ok(value) => self.errors().len() == 0 && value == self.value(),
                Err(sentinel) => self.errors().len() > 0 && sentinel@ == self.errors(),
            },
    {
        if self.is_success() {
            Ok(self.value)
        } else {
            Err(self.into_errors())
        }
    }

    /// Converts this `Outcome` into an [`ErrorSentinel`] that holds its errors, discarding
    /// the value. The sentinel must be disposed of in its turn.
    #[must_use]
    pub fn into_errors(self) -> (sentinel: ErrorSentinel<E>)
        ensures
            sentinel@ == self.errors(),
    {
        ErrorSentinel::new(self.errors)
    }

    /// Returns `true` if this `Outcome` has any errors.
    #[must_use]
    pub fn has_errors(&self) -> (any: bool)
        ensures
            any == (self.errors().len() > 0),
    {
        self.len_errors() > 0
    }

    /// Returns `true` if this `Outcome` has no errors.
    #[must_use]
    pub fn is_success(&self) -> (none: bool)
        ensures
            none == (self.errors().len() == 0),
    {
        self.len_errors() == 0
    }

    /// The number of errors within this `Outcome`.
    #[must_use]
    pub fn len_errors(&self) -> (count: usize)
        ensures
            count == self.errors().len(),
    {
        self.errors.len()
    }

    /// Consumes and deconstructs this `Outcome` into its value and an [`ErrorSentinel`]
    /// that holds its errors and must be disposed of in its turn.
    #[must_use]
    pub fn finalize(self) -> (parts: (T, ErrorSentinel<E>))
        ensures
            parts.0 == self.value(),
            parts.1@ == self.errors(),
    {
        (self.value, ErrorSentinel::new(self.errors))
    }
}

/// The values of the containers of `items`, in index order.
pub open spec fn values_of<T, E>(items: Seq<Outcome<T, E>>) -> Seq<T> {
    items.map_values(|item: Outcome<T, E>| item.value())
}

/// The error lists of the containers of `items`, in index order.
pub open spec fn errors_of<T, E>(items: Seq<Outcome<T, E>>) -> Seq<Seq<E>> {
    items.map_values(|item: Outcome<T, E>| item.errors())
}

impl<T, E> Outcome<Vec<T>, E> {
    /// Converts a list of `Outcome` items into a single `Outcome` whose value is the list
    /// of the items' values, in order. The errors of the first item come first, each item's
    /// errors in their own order.
    #[must_use]
    pub fn from_iter(items: Vec<Outcome<T, E>>) -> (out: Self)
        ensures
            out.value()@ == values_of(items@),
            out.errors() == joined(errors_of(items@)),
    {
        let ghost all = items@;
        let mut values: Vec<T> = Vec::new();
        let mut errors: Vec<E> = Vec::new();
        for item in it: items.into_iter()
            invariant
                it.seq() == all,
                values@ == values_of(all.take(it.index() as int)),
                errors@ == joined(errors_of(all.take(it.index() as int))),
        {
            let ghost done = all.take(it.index() as int);
            proof {
                assert(all.take(it.index() + 1) == done.push(item));
                assert(values_of(done.push(item)) == values_of(done).push(item.value()));
                assert(errors_of(done.push(item)) == errors_of(done).push(item.errors()));
                lemma_joined_push(errors_of(done), item.errors());
            }
            let Outcome { value, errors: mut behind } = item;
            values.push(value);
            errors.append(&mut behind);
        }
        assert(all.take(all.len() as int) == all);
        Outcome::new_with_errors(values, errors)
    }
}

impl<T, E> ErrorCollector<E> for Outcome<T, E> {
    type WrappedInner = T;

    open spec fn collected(&self) -> Seq<E> {
        self.errors()
    }

    open spec fn payload(&self) -> T {
        self.value()
    }

    fn push_error(&mut self, error: E) {
        Outcome::push_error(self, error);
    }
}

impl<T, E> Propagate<E> for Outcome<T, E> {
    fn propagate<C: ErrorCollector<E>>(self, other: &mut C) -> (inner: T) {
        Outcome::propagate(self, other)
    }
}

/// Mapping the value with a function that returns its argument changes nothing: the value
/// and the errors, in their order, are those held before.
pub proof fn lemma_map_identity<T, E, F: FnOnce(T) -> T>(
    before: Outcome<T, E>,
    func: F,
    after: Outcome<T, E>,
)
    requires
        forall|input: T, output: T| call_ensures(func, (input,), output) ==> output == input,
        before.maps_to(func, after),
    ensures
        after.value() == before.value(),
        after.errors() == before.errors(),
{
}

/// Mapping the errors with a function that returns its argument changes nothing: the value
/// and the errors, in their order, are those held before.
pub proof fn lemma_map_errors_identity<T, E, F: FnMut(E) -> E>(
    before: Outcome<T, E>,
    func: F,
    after: Outcome<T, E>,
)
    requires
        forall|input: E, output: E| call_ensures(func, (input,), output) ==> output == input,
        before.maps_errors_to(func, after),
    ensures
        after.value() == before.value(),
        after.errors() == before.errors(),
{
    assert(after.errors() =~= before.errors());
}

} // verus!
