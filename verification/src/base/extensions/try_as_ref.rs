use vstd::prelude::*;

verus! {

/// A view of a value as a `T`, with the possibility of refusal.
pub trait TryAsRef<T> {
    type Error;

    type Ref;

    fn try_as_ref(&self) -> Result<Self::Ref, Self::Error>;
}

/// A mutable view of a value as a `T`, with the possibility of refusal.
pub trait TryAsMut<T> where Self: TryAsRef<T> {
    type MutError;

    type Mut;

    fn try_as_mut(&mut self) -> Result<Self::Mut, Self::MutError>;
}

} // verus!
