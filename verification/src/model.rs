//! Options shared by every jj invocation, and the terminal token.
use vstd::prelude::*;

verus! {

/// Options that every jj invocation carries: the repository it acts on and
/// whether immutable commits may be rewritten.
#[derive(Clone, Debug)]
pub struct GlobalArgs {
    pub repository: String,
    pub ignore_immutable: bool,
}

impl View for GlobalArgs {
    type V = (Seq<char>, bool);

    open spec fn view(&self) -> (Seq<char>, bool) {
        (self.repository@, self.ignore_immutable)
    }
}

impl GlobalArgs {
    /// A copy of these options.
    pub fn duplicate(&self) -> (r: Self)
        ensures
            r@ == self@,
    {
        GlobalArgs { repository: self.repository.clone(), ignore_immutable: self.ignore_immutable }
    }
}

/// The interactive terminal: a command that holds it hands the terminal over
/// to jj while it runs, and takes it back afterwards.
#[derive(Clone, Copy, Debug)]
pub struct Term;

} // verus!
