use std::any::Any;
use std::any::TypeId;
use vstd::prelude::*;

verus! {

/// Marker for the data types that may be logged.
///
/// A type opts in with an empty `impl`; nothing else is asked of it. Values of
/// such a type reach handlers behind an [`Erased`] handle.
pub trait Loggable: 'static {

}

/// What an [`Erased`] handle stands for: a loggable value together with its
/// concrete type, as one value of a single type.
pub struct ErasedView<'a> {
    value: &'a dyn Loggable,
}

/// The erased form of `value`.
pub closed spec fn erased<T: Loggable + 'static>(value: &T) -> ErasedView<'_> {
    ErasedView { value }
}

/// `std::any::TypeId`, taken as an opaque value.
#[verifier::external_type_specification]
#[verifier::external_body]
pub struct ExTypeId(std::any::TypeId);

/// A `&dyn std::any::Any`. The verifier cannot represent trait objects of
/// `Any`, so the reference is kept out of its sight: nothing is proved about
/// what is inside, and what is assumed of one is what [`referent`] says.
#[verifier::external_body]
pub struct AnyRef<'a> {
    inner: &'a dyn Any,
}

/// The loggable value that an [`AnyRef`] points to, in erased form. Fixed by
/// what is assumed of [`any_ref_of`], the only place where one is made.
pub uninterp spec fn referent(any: AnyRef<'_>) -> ErasedView<'_>;

/// The identifier of the concrete type behind an erased value. Fixed by what
/// is assumed of [`type_id_of`].
pub uninterp spec fn key_of(value: ErasedView<'_>) -> TypeId;

/// The identifier of the type `T`: the one that every erased `T` has.
pub open spec fn type_key<T: Loggable + 'static>() -> TypeId {
    key_of(erased::<T>(&arbitrary()))
}

/// Wraps the unsizing of `&T` to `&dyn std::any::Any`. Not proved, assumed:
/// the result points to `value`.
#[verifier::external_body]
fn any_ref_of<T: Loggable + 'static>(value: &T) -> (any: AnyRef<'_>)
    ensures
        referent(any) == erased(value),
{
    AnyRef { inner: value }
}

/// Wraps `<dyn std::any::Any>::downcast_ref::<T>`. Not proved, assumed as
/// its documentation says: it returns a reference to the value pointed to if
/// that value is of type `T`, and `None` if it is not.
#[verifier::external_body]
fn downcast_any<'a, T: Loggable + 'static>(any: &AnyRef<'a>) -> (r: Option<&'a T>)
    ensures
        r matches Some(t) ==> erased(t) == referent(*any),
        forall|t: &T| #[trigger] erased(t) == referent(*any) ==> r == Some(t),
{
    any.inner.downcast_ref::<T>()
}

/// Wraps `std::any::TypeId::of::<T>`. Not proved, assumed: the identifier
/// returned is that of the concrete type of every value of type `T`.
#[verifier::external_body]
fn type_id_of<T: Loggable + 'static>() -> (id: TypeId)
    ensures
        forall|t: &T| #[trigger] key_of(erased(t)) == id,
{
    TypeId::of::<T>()
}

/// Wraps `==` on `std::any::TypeId`. Not proved, assumed: it holds exactly of
/// identical identifiers.
#[verifier::external_body]
fn same_type_id(a: &TypeId, b: &TypeId) -> (r: bool)
    ensures
        r == (*a == *b),
{
    a == b
}

/// A reference to a loggable value whose concrete type is no longer known
/// statically. [`Erased::downcast_ref`] gets the value back.
pub struct Erased<'a> {
    any: AnyRef<'a>,
}

impl<'a> View for Erased<'a> {
    type V = ErasedView<'a>;

    closed spec fn view(&self) -> ErasedView<'a> {
        referent(self.any)
    }
}

impl<'a> Erased<'a> {
    /// Erases the type of `value`.
    pub fn new<T: Loggable + 'static>(value: &'a T) -> (e: Self)
        ensures
            e@ == erased(value),
    {
        Erased { any: any_ref_of(value) }
    }

    /// Recovers the concrete value if it is a `T`: `Some` exactly when `self`
    /// is the erased form of a `T`, and then with that very value.
    pub fn downcast_ref<T: Loggable + 'static>(&self) -> (r: Option<&'a T>)
        ensures
            r matches Some(t) ==> erased(t) == self@,
            forall|t: &T| #[trigger] erased(t) == self@ ==> r == Some(t),
    {
        downcast_any::<T>(&self.any)
    }
}

/// Computes the identifier of `T`.
pub fn type_key_of<T: Loggable + 'static>() -> (key: TypeId)
    ensures
        key == type_key::<T>(),
{
    type_id_of::<T>()
}

/// Tells whether two type identifiers are the same.
pub fn same_key(a: &TypeId, b: &TypeId) -> (r: bool)
    ensures
        r == (*a == *b),
{
    same_type_id(a, b)
}

} // verus!
