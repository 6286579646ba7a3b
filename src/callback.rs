use vstd::prelude::*;

verus! {

/// A stored action without arguments, to be run on demand.
pub struct Callback<F: Fn()> {
    callback: F,
}

impl<F: Fn()> Callback<F> {
    /// The stored action.
    pub closed spec fn action(&self) -> F {
        self.callback
    }

    /// Stores `a`.
    pub fn new(a: F) -> (r: Callback<F>) where F: 'static
        ensures
            r.action() == a,
    {
        Callback { callback: a }
    }

    /// Runs the stored action once.
    pub fn call(&self)
        requires
            self.action().requires(()),
        ensures
            self.action().ensures((), ()),
    {
        (self.callback)();
    }
}

} // verus!
