//! What a running program is given by its host: somewhere to write to,
//! and an allowance of steps.

use vstd::prelude::*;

verus! {

/// The host's side of an evaluation. What `print` writes is added to
/// `stdio`; each loop round and each call takes one of `steps`.
#[derive(Debug)]
pub struct Base {
    pub stdio: String,
    pub steps: u64,
}

impl Default for Base {
    /// An empty sink and the largest allowance there is.
    fn default() -> (r: Self)
        ensures
            r.stdio@ == Seq::<char>::empty(),
            r.steps == u64::MAX,
    {
        Base { stdio: String::new(), steps: u64::MAX }
    }
}

impl Base {
    /// Writes to `destination` from now on: what it holds already
    /// stays in front of what is written.
    pub fn update_stdio(&mut self, destination: String)
        ensures
            final(self).stdio == destination,
            final(self).steps == old(self).steps,
    {
        self.stdio = destination;
    }

    /// Allows `steps` loop rounds and calls from now on.
    pub fn allow(&mut self, steps: u64)
        ensures
            final(self).stdio == old(self).stdio,
            final(self).steps == steps,
    {
        self.steps = steps;
    }
}

} // verus!
