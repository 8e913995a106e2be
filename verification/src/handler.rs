use crate::loggable::erased;
use crate::loggable::Erased;
use crate::loggable::ErasedView;
use crate::loggable::Loggable;
use std::marker::PhantomData;
use vstd::prelude::*;

verus! {

/// `f` may be called on every value of type `T`.
pub open spec fn accepts_every<T, F: Fn(&T)>(f: F) -> bool {
    forall|t: &T| #[trigger] call_requires(f, (t,))
}

/// `f` may be called on every erased value.
pub open spec fn accepts_every_erased<F: Fn(&Erased<'_>)>(f: F) -> bool {
    forall|e: &Erased<'_>| #[trigger] call_requires(f, (e,))
}

/// What a handler made from `f` for the type `T` has done once it has run on
/// `value`: if `value` is the erased form of a `T`, `f` has run on that `T`;
/// if it is not, nothing is said of `f`.
pub open spec fn typed_ran<T: Loggable + 'static, F: Fn(&T)>(f: F, value: ErasedView<'_>) -> bool {
    forall|t: &T| #[trigger] erased(t) == value ==> call_ensures(f, (t,), ())
}

/// What a catch-all handler made from `f` has done once it has run on
/// `value`: `f` has run on a handle of `value`.
pub open spec fn catch_all_ran<F: Fn(&Erased<'_>)>(f: F, value: ErasedView<'_>) -> bool {
    exists|e: &Erased<'_>| e@ == value && #[trigger] call_ensures(f, (e,), ())
}

/// What the registries store: something that can be run on any erased value.
trait LogHandler: Send + Sync {
    /// What is known once the handler has run on `value`.
    spec fn handled(&self, value: ErasedView<'_>) -> bool;

    fn handle(&self, value: &Erased<'_>)
        ensures
            self.handled(value@),
    ;
}

/// A handler that receives every value in its erased form.
struct CatchAll<F: Fn(&Erased<'_>) + Send + Sync> {
    f: F,
}

impl<F: Fn(&Erased<'_>) + Send + Sync> CatchAll<F> {
    #[verifier::type_invariant]
    spec fn total(&self) -> bool {
        accepts_every_erased(self.f)
    }
}

impl<F: Fn(&Erased<'_>) + Send + Sync> LogHandler for CatchAll<F> {
    closed spec fn handled(&self, value: ErasedView<'_>) -> bool {
        catch_all_ran(self.f, value)
    }

    fn handle(&self, value: &Erased<'_>) {
        proof {
            use_type_invariant(self);
        }
        (self.f)(value);
    }
}

/// Stands in [`Typed`] for "is handed a `&T`". Unlike a `T` held by value it
/// leaves the handler `Send + Sync` whatever `T` is.
trait Takes<T>: Send + Sync {

}

/// A handler for one concrete type: it runs `f` on values of type `T` and
/// silently declines everything else.
#[verifier::reject_recursive_types(T)]
struct Typed<T: Loggable + 'static, F: Fn(&T) + Send + Sync> {
    f: F,
    marker: PhantomData<dyn Takes<T>>,
}

impl<T: Loggable + 'static, F: Fn(&T) + Send + Sync> Typed<T, F> {
    #[verifier::type_invariant]
    spec fn total(&self) -> bool {
        accepts_every::<T, F>(self.f)
    }
}

impl<T: Loggable + 'static, F: Fn(&T) + Send + Sync> LogHandler for Typed<T, F> {
    closed spec fn handled(&self, value: ErasedView<'_>) -> bool {
        typed_ran::<T, F>(self.f, value)
    }

    fn handle(&self, value: &Erased<'_>) {
        proof {
            use_type_invariant(self);
        }
        match value.downcast_ref::<T>() {
            Some(concrete) => {
                (self.f)(concrete);
            },
            None => {},
        }
    }
}

/// A registered handler: a closure behind a trait object, ready to be run on
/// erased values from any thread.
pub struct LogFn {
    inner: Box<dyn LogHandler>,
}

/// The handler that [`LogFn::typed`] makes from `f`.
pub closed spec fn typed_handler<T: Loggable + 'static, F: Fn(&T) + Send + Sync + 'static>(
    f: F,
) -> LogFn {
    LogFn { inner: Box::new(Typed::<T, F> { f, marker: PhantomData }) }
}

/// The handler that [`LogFn::catch_all`] makes from `f`.
pub closed spec fn catch_all_handler<F: Fn(&Erased<'_>) + Send + Sync + 'static>(f: F) -> LogFn {
    LogFn { inner: Box::new(CatchAll::<F> { f }) }
}

impl LogFn {
    /// What is known once this handler has run on `value`. For the two kinds
    /// of handler there are, [`lemma_typed_handler`] and
    /// [`lemma_catch_all_handler`] say what that is.
    pub closed spec fn handled(&self, value: ErasedView<'_>) -> bool {
        self.inner.handled(value)
    }

    /// Wraps a handler for the concrete type `T`: the result runs `f` on the
    /// values of type `T` it is given and does nothing on any other value.
    pub fn typed<T: Loggable + 'static, F: Fn(&T) + Send + Sync + 'static>(f: F) -> (h: Self)
        requires
            accepts_every::<T, F>(f),
        ensures
            h == typed_handler::<T, F>(f),
    {
        LogFn { inner: Box::new(Typed::<T, F> { f, marker: PhantomData }) }
    }

    /// Wraps a handler for values of every type: the result runs `f` on
    /// whatever it is given.
    pub fn catch_all<F: Fn(&Erased<'_>) + Send + Sync + 'static>(f: F) -> (h: Self)
        requires
            accepts_every_erased(f),
        ensures
            h == catch_all_handler(f),
    {
        LogFn { inner: Box::new(CatchAll::<F> { f }) }
    }

    /// Runs the handler on `value`.
    pub fn call(&self, value: &Erased<'_>)
        ensures
            self.handled(value@),
    {
        self.inner.handle(value)
    }
}

/// What a typed handler has done once it has run.
pub proof fn lemma_typed_handler<T: Loggable + 'static, F: Fn(&T) + Send + Sync + 'static>(
    f: F,
    value: ErasedView<'_>,
)
    ensures
        typed_handler::<T, F>(f).handled(value) == typed_ran::<T, F>(f, value),
{
}

/// What a catch-all handler has done once it has run.
pub proof fn lemma_catch_all_handler<F: Fn(&Erased<'_>) + Send + Sync + 'static>(
    f: F,
    value: ErasedView<'_>,
)
    ensures
        catch_all_handler(f).handled(value) == catch_all_ran(f, value),
{
}

} // verus!
