//! A zero-argument fallible computation that runs at most once successfully.

use std::rc::Rc;
use vstd::prelude::*;

verus! {

/// Wraps an expensive computation; the first successful outcome is kept
/// and shared by every later `get`. A failure is not kept: the next `get`
/// runs the computation again.
#[verifier::reject_recursive_types(T)]
#[verifier::reject_recursive_types(E)]
pub struct LazyResult<T, E, F> where F: Fn() -> Result<T, E> {
    value: Option<Rc<T>>,
    initializer: F,
}

impl<T, E, F> LazyResult<T, E, F> where F: Fn() -> Result<T, E> {
    /// The value kept from an earlier successful run, if any.
    pub closed spec fn cached(&self) -> Option<T> {
        match self.value {
            Some(v) => Some(*v),
            None => None,
        }
    }

    /// The wrapped computation.
    pub closed spec fn initializer(&self) -> F {
        self.initializer
    }

    pub fn new(initializer: F) -> (r: Self)
        ensures
            r.cached() is None,
            r.initializer() == initializer,
    {
        LazyResult { value: None, initializer }
    }

    /// Returns the kept value, or runs the computation when none is kept.
    pub fn get(&mut self) -> (r: Result<Rc<T>, E>)
        requires
            old(self).cached() is None ==> old(self).initializer().requires(()),
        ensures
            final(self).initializer() == old(self).initializer(),
            match old(self).cached() {
                Some(v) => r matches Ok(x) && *x == v && final(self).cached() == old(self).cached(),
                None => match r {
                    Ok(x) => {
                        &&& old(self).initializer().ensures((), Ok::<T, E>(*x))
                        &&& final(self).cached() == Some(*x)
                    },
                    Err(e) => {
                        &&& old(self).initializer().ensures((), Err::<T, E>(e))
                        &&& final(self).cached() is None
                    },
                },
            },
    {
        match &self.value {
            Some(v) => Ok(v.clone()),
            None => {
                let outcome = (self.initializer)();
                match outcome {
                    Ok(t) => {
                        let v = Rc::new(t);
                        self.value = Some(v.clone());
                        Ok(v)
                    },
                    Err(e) => Err(e),
                }
            },
        }
    }
}

} // verus!
