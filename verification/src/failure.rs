//! Why something went wrong.

use vstd::prelude::*;

verus! {

/// What was being done when something went wrong, and behind that the causes, each the cause of
/// the one before it.
#[derive(Debug, PartialEq)]
pub struct Failure {
    pub message: String,
    pub causes: Vec<String>,
}

impl View for Failure {
    type V = Seq<Seq<char>>;

    open spec fn view(&self) -> Seq<Seq<char>> {
        in_context(self.message@, self.causes@.map_values(|cause: String| cause@))
    }
}

/// The messages of a failure, seen from one step further out.
pub open spec fn in_context(outer: Seq<char>, inner: Seq<Seq<char>>) -> Seq<Seq<char>> {
    seq![outer] + inner
}

impl Failure {
    /// A failure without a cause.
    pub fn new(message: String) -> (failure: Failure)
        ensures
            failure@ == seq![message@],
    {
        let failure = Failure { message, causes: Vec::new() };
        assert(failure@ =~= seq![message@]);
        failure
    }

    /// The failure, seen from one step further out.
    pub fn context(self, message: String) -> (failure: Failure)
        ensures
            failure@ == in_context(message@, self@),
    {
        let mut causes: Vec<String> = self.causes;
        causes.insert(0, self.message);
        let failure = Failure { message, causes };
        assert(failure@ =~= in_context(message@, self@));
        failure
    }
}

} // verus!
