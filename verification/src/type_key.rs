//! Run-time identifiers of types, used as keys.

use std::any::TypeId;
use vstd::prelude::*;

verus! {

/// `std::any::TypeId`, carried as an opaque value.
#[verifier::external_type_specification]
#[verifier::external_body]
pub struct ExTypeId(std::any::TypeId);

/// `std::any::TypeId::of`: declared so that contracts can speak of what it returns.
pub assume_specification<T: ?Sized + 'static>[ TypeId::of::<T> ]() -> (id: TypeId);

/// The identifier of the type `T`: what `TypeId::of::<T>()` returns.
pub open spec fn type_key<T: 'static>() -> TypeId {
    choose|id: TypeId| call_ensures(TypeId::of::<T>, (), id)
}

/// Calls `std::any::TypeId::of`, which identifies a type: every call for the same `T` returns
/// the same identifier, the one that contracts call `type_key::<T>()`.
#[verifier::external_body]
pub(crate) fn type_id<T: 'static>() -> (id: TypeId)
    ensures
        id == type_key::<T>(),
{
    TypeId::of::<T>()
}

/// Calls `==` on two `std::any::TypeId`s, which tells whether they are the same identifier.
#[verifier::external_body]
pub(crate) fn same_type_id(a: &TypeId, b: &TypeId) -> (same: bool)
    ensures
        same == (*a == *b),
{
    a == b
}

/// Tells whether two types have the same identifier, as no two different types should.
pub fn same_type<A: 'static, B: 'static>() -> (same: bool)
    ensures
        same == (type_key::<A>() == type_key::<B>()),
{
    same_type_id(&type_id::<A>(), &type_id::<B>())
}

} // verus!
