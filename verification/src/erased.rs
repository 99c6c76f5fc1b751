//! Values whose type is known only at run time.

use std::any::Any;
use vstd::prelude::*;

verus! {

/// A value of any type, behind a `Box<dyn std::any::Any>`.
///
/// Trait objects of `Any` cannot be declared to Verus, so the box is hidden here and reached
/// through the three functions below.
#[verifier::external_body]
pub struct Erased(Box<dyn Any>);

impl Erased {
    /// Calls `Box::new` and forgets the type of the box's content. Nothing is claimed of the
    /// result: `holds` is defined as being such a result.
    #[verifier::external_body]
    fn boxed<T: 'static>(value: T) -> (erased: Erased) {
        Erased(Box::new(value))
    }

    /// Whether this is `value`, a value of type `T`, with its type forgotten.
    pub closed spec fn holds<T: 'static>(self, value: T) -> bool {
        call_ensures(Erased::boxed::<T>, (value,), self)
    }

    /// Forgets the type of `value`.
    pub(crate) fn new<T: 'static>(value: T) -> (erased: Erased)
        ensures
            erased.holds(value),
    {
        Erased::boxed(value)
    }

    /// Calls `<dyn Any>::downcast_ref`, which gives access to the content if it is of type `T`,
    /// and nothing if it is of another type.
    #[verifier::external_body]
    pub(crate) fn downcast_ref<T: 'static>(&self) -> (value: Option<&T>)
        ensures
            forall|x: T| #[trigger] self.holds(x) <==> value == Some(&x),
    {
        self.0.downcast_ref()
    }

    /// Calls `<dyn Any>::downcast_mut`, which gives access for changes to the content if it is
    /// of type `T`, and nothing if it is of another type.
    #[verifier::external_body]
    pub(crate) fn downcast_mut<T: 'static>(&mut self) -> (value: Option<&mut T>)
        ensures
            forall|x: T| #[trigger] old(self).holds(x) ==> value is Some && *value.unwrap() == x,
            match value {
                Some(x) => old(self).holds(*x) && final(self).holds(*final(x)),
                None => *final(self) == *old(self),
            },
    {
        self.0.downcast_mut()
    }
}

} // verus!
