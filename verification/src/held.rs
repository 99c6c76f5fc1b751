//! Boxed trait objects as elements of collections.

use vstd::prelude::*;

verus! {

/// A box whose content need not have a size known at compile time.
///
/// Verus sees through `Box`, and its sequences need elements of known size: this type is one.
pub struct Held<T: ?Sized> {
    pub value: Box<T>,
}

} // verus!
