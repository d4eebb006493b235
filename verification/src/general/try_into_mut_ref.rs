use vstd::prelude::*;

verus! {

/// A value that may give access to a `T` inside it, to change in place.
/// Its users implement it.
pub trait TryIntoMutRef<T> {
    fn try_into_mut_ref(&mut self) -> Option<&mut T>;
}

}
