//! One end of a bounds selection, and a fallible map over it.

use vstd::prelude::*;

verus! {

/// One endpoint of an interval over a column's ordered values.
pub enum SelectionBound<TItem> {
    Included(TItem),
    Excluded(TItem),
    Unbounded,
}

/// Applies a fallible conversion to the value held by a bound, keeping the
/// bound's shape; `Unbounded` carries nothing and always succeeds.
pub fn try_map<T: Copy, U, E, F: Fn(T) -> Result<U, E>>(bound: &SelectionBound<T>, f: &F) -> (r:
    Result<SelectionBound<U>, E>)
    requires
        forall|v: T| bound == SelectionBound::<T>::Included(v) ==> call_requires(*f, (v,)),
        forall|v: T| bound == SelectionBound::<T>::Excluded(v) ==> call_requires(*f, (v,)),
    ensures
        match *bound {
            SelectionBound::Included(v) => match r {
                Ok(SelectionBound::Included(u)) => call_ensures(*f, (v,), Ok::<U, E>(u)),
                Err(e) => call_ensures(*f, (v,), Err::<U, E>(e)),
                _ => false,
            },
            SelectionBound::Excluded(v) => match r {
                Ok(SelectionBound::Excluded(u)) => call_ensures(*f, (v,), Ok::<U, E>(u)),
                Err(e) => call_ensures(*f, (v,), Err::<U, E>(e)),
                _ => false,
            },
            SelectionBound::Unbounded => r == Result::<SelectionBound<U>, E>::Ok(
                SelectionBound::Unbounded,
            ),
        },
{
    match bound {
        SelectionBound::Excluded(v) => match f(*v) {
            Ok(u) => Ok(SelectionBound::Excluded(u)),
            Err(e) => Err(e),
        },
        SelectionBound::Included(v) => match f(*v) {
            Ok(u) => Ok(SelectionBound::Included(u)),
            Err(e) => Err(e),
        },
        SelectionBound::Unbounded => Ok(SelectionBound::Unbounded),
    }
}

} // verus!
