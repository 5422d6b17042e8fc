//! Error-propagation plumbing: combining independently validated results.

use vstd::prelude::*;

verus! {

/// Combines a tuple of results into one result, keeping the first error in
/// component order.
pub trait LiftErr: Sized {
    type TOk;

    type TError;

    /// What combining yields, component by component.
    spec fn spec_lift_err(self) -> Result<Self::TOk, Self::TError>;

    fn lift_err(self) -> (r: Result<Self::TOk, Self::TError>)
        ensures
            r == self.spec_lift_err(),
    ;
}

impl<A1, A2, TError> LiftErr for (Result<A1, TError>, Result<A2, TError>) {
    type TOk = (A1, A2);

    type TError = TError;

    open spec fn spec_lift_err(self) -> Result<(A1, A2), TError> {
        match self {
            (Ok(arg1), Ok(arg2)) => Ok((arg1, arg2)),
            (Err(e), _) => Err(e),
            (_, Err(e)) => Err(e),
        }
    }

    fn lift_err(self) -> (r: Result<(A1, A2), TError>) {
        match self {
            (Ok(arg1), Ok(arg2)) => Ok((arg1, arg2)),
            (Err(e), _) => Err(e),
            (_, Err(e)) => Err(e),
        }
    }
}

} // verus!
