//! The trusted type-erasure boundary: opaque boxed values, type tokens,
//! and the checked downcasts that recover concrete types.

use vstd::prelude::*;

verus! {

/// `core::any::TypeId`, declared so that tokens can sit in identifiers and
/// buckets. A token is an opaque value; the only operation the library needs
/// is equality.
#[verifier::external_type_specification]
#[verifier::external_body]
pub struct ExTypeId(core::any::TypeId);

/// Relies on `core::any::TypeId::of`: the token that identifies `T` at run
/// time. To the verifier the result is an arbitrary token; nothing connects
/// two calls of this function, so every contract downstream speaks of the
/// token a value actually carries.
#[verifier::external_body]
pub(crate) fn type_key<T: 'static>() -> (r: core::any::TypeId) {
    core::any::TypeId::of::<T>()
}

/// Relies on `TypeId`'s `PartialEq`: two tokens compare equal exactly when
/// they are the same token.
#[verifier::external_body]
pub(crate) fn type_key_eq(a: &core::any::TypeId, b: &core::any::TypeId) -> (r: bool)
    ensures
        r == (a == b),
{
    a == b
}

/// One type-erased value: a box whose concrete type is forgotten at this
/// boundary and recovered only by a checked downcast. The verifier treats a
/// value of this type as opaque; the container code around it tracks which
/// opaque value sits where.
#[verifier::external_body]
pub struct AnyValue {
    inner: std::boxed::Box<dyn core::any::Any>,
}

/// Relies on `Box::new` and the unsizing coercion to `Box<dyn Any>`: the box
/// holds exactly `value`, and a later downcast to `T` hands it back.
#[verifier::external_body]
pub(crate) fn any_new<T: 'static>(value: T) -> (r: AnyValue) {
    AnyValue { inner: std::boxed::Box::new(value) }
}

/// Relies on `Box::<dyn Any>::downcast`: `Ok` exactly when the box was made
/// from a `T`, and on failure the original box comes back untouched.
#[verifier::external_body]
pub(crate) fn any_downcast<T: 'static>(value: AnyValue) -> (r: Result<T, AnyValue>)
    ensures
        r matches Err(a) ==> a == value,
{
    match value.inner.downcast::<T>() {
        Ok(b) => Ok(*b),
        Err(inner) => Err(AnyValue { inner }),
    }
}

/// Relies on `<dyn Any>::downcast_ref`: `Some` exactly when the box was made
/// from a `T`.
#[verifier::external_body]
pub(crate) fn any_downcast_ref<'a, T: 'static>(value: &'a AnyValue) -> (r: Option<&'a T>) {
    value.inner.downcast_ref::<T>()
}

/// Relies on `<dyn Any>::downcast_mut`: `Some` exactly when the box was made
/// from a `T`; a failed downcast leaves the value as it was.
#[verifier::external_body]
pub(crate) fn any_downcast_mut<'a, T: 'static>(value: &'a mut AnyValue) -> (r: Option<
    &'a mut T,
>)
    ensures
        r is None ==> *final(value) == *old(value),
{
    value.inner.downcast_mut::<T>()
}

/// Relies on `Vec::shrink_to_fit`: only spare capacity is released, the
/// contents stay exactly as they were.
#[verifier::external_body]
pub(crate) fn shrink_vec<T>(v: &mut Vec<T>)
    ensures
        final(v)@ == old(v)@,
{
    v.shrink_to_fit()
}

} // verus!
