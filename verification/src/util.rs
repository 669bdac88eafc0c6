//! Small helpers: a deferred action that can be called off, and applying a
//! function to a value in a chain of calls.
use vstd::prelude::*;
use std::marker::PhantomData;

verus! {

/// Applies a function to a value without binding it to a name first.
pub trait ChainMap: Sized {
    /// `f` applied to `self`.
    fn chain_map<F>(self, f: F) -> (r: Self) where F: FnOnce(Self) -> Self
        requires
            call_requires(f, (self,)),
        ensures
            call_ensures(f, (self,), r),
    {
        f(self)
    }
}

impl<T> ChainMap for T {

}

/// An action kept for later, which returns a `Result` as a reminder not to
/// panic. It is either run with `run` (an owner that goes out of scope runs
/// it) or called off with `disarm`.
#[must_use]
#[verifier::reject_recursive_types(E)]
#[verifier::reject_recursive_types(F)]
pub struct Defer<F, E> where F: FnOnce() -> Result<(), E> {
    f: Option<F>,
    err: PhantomData<E>,
}

impl<F, E> Defer<F, E> where F: FnOnce() -> Result<(), E> {
    /// The action this holds, if it has not been called off.
    pub closed spec fn action(&self) -> Option<F> {
        self.f
    }

    /// Keeps `f` to be run later.
    pub fn defer(f: F) -> (r: Defer<F, E>)
        ensures
            r.action() == Some(f),
    {
        Defer { f: Some(f), err: PhantomData }
    }

    /// Calls the action off: it never runs.
    pub fn disarm(self) {
        let mut d = self;
        d.f = None;
    }

    /// Runs the action, if it is still there, and gives back its result.
    pub fn run(self) -> (r: Result<(), E>)
        requires
            self.action() matches Some(f) ==> call_requires(f, ()),
        ensures
            match self.action() {
                Some(f) => call_ensures(f, (), r),
                None => r is Ok,
            },
    {
        match self.f {
            Some(f) => f(),
            None => Ok(()),
        }
    }
}

} // verus!
