use vstd::prelude::*;

verus! {

/// A container whose content can be mapped by a function, giving a container of
/// the results (`f_map`).
pub trait Functor<U> {
    type T;

    type OtherFunctor;

    /// The values the container holds.
    spec fn functor_values(&self) -> Seq<Self::T>;

    fn f_map<F: FnOnce(Self::T) -> U>(self, func: F) -> Self::OtherFunctor
        requires
            forall|i: int|
                0 <= i < self.functor_values().len() ==> call_requires(func, (#[trigger] self.functor_values()[i],)),
    ;
}

/// A container that can wrap a value (`m_return`).
pub trait Monad: Sized {
    type T;

    /// The values the container holds.
    spec fn monad_values(&self) -> Seq<Self::T>;

    fn m_return(value: Self::T) -> Self;
}

/// A container that chains computations that each give a container of `U`
/// (`m_bind`).
pub trait MonadBind<U>: Monad {
    type OtherMonad;

    fn m_bind<F: FnOnce(Self::T) -> Self::OtherMonad>(self, func: F) -> Self::OtherMonad
        requires
            forall|i: int|
                0 <= i < self.monad_values().len() ==> call_requires(func, (#[trigger] self.monad_values()[i],)),
    ;
}

/// The values an option holds: none or one.
pub open spec fn option_values<T>(o: Option<T>) -> Seq<T> {
    match o {
        Some(v) => seq![v],
        None => Seq::empty(),
    }
}

impl<T, U> Functor<U> for Option<T> {
    type T = T;

    type OtherFunctor = Option<U>;

    open spec fn functor_values(&self) -> Seq<T> {
        option_values(*self)
    }

    /// `func` of the value, if there is one.
    fn f_map<F: FnOnce(T) -> U>(self, func: F) -> (r: Option<U>)
        ensures
            self is None ==> r is None,
            self matches Some(v) ==> (r matches Some(u) && call_ensures(func, (v,), u)),
    {
        match self {
            Some(val) => {
                assert(<Option<T> as Functor<U>>::functor_values(&self)[0] == val);
                Some(func(val))
            },
            None => None,
        }
    }
}

impl<T> Monad for Option<T> {
    type T = T;

    open spec fn monad_values(&self) -> Seq<T> {
        option_values(*self)
    }

    /// The value, wrapped.
    fn m_return(value: T) -> (r: Self)
        ensures
            r == Some(value),
    {
        Some(value)
    }
}

impl<T, U> MonadBind<U> for Option<T> {
    type OtherMonad = Option<U>;

    /// `func` of the value, if there is one; nothing otherwise.
    fn m_bind<F: FnOnce(T) -> Option<U>>(self, func: F) -> (r: Option<U>)
        ensures
            self is None ==> r is None,
            self matches Some(v) ==> call_ensures(func, (v,), r),
    {
        match self {
            Some(value) => {
                assert(self.monad_values()[0] == value);
                func(value)
            },
            None => None,
        }
    }
}

} // verus!
