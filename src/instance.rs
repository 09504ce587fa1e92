//! The payload that a second launch of the program hands to the running one.
use vstd::prelude::*;

verus! {

/// The arguments and working directory of a second launch.
#[derive(Clone)]
pub struct NewInstancePayload {
    args: Vec<String>,
    cwd: String,
}

impl View for NewInstancePayload {
    type V = (Seq<String>, Seq<char>);

    closed spec fn view(&self) -> (Seq<String>, Seq<char>) {
        (self.args@, self.cwd@)
    }
}

impl NewInstancePayload {
    /// Creates a new `NewInstancePayload` instance.
    pub fn new(args: Vec<String>, cwd: String) -> (r: Self)
        ensures
            r@ == (args@, cwd@),
    {
        Self { args, cwd }
    }

    /// The arguments of the launch.
    pub fn args(&self) -> (r: &Vec<String>)
        ensures
            r@ == self@.0,
    {
        &self.args
    }

    /// The working directory of the launch.
    pub fn cwd(&self) -> (r: &String)
        ensures
            r@ == self@.1,
    {
        &self.cwd
    }
}

} // verus!
