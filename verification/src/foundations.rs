//! Foundations of the relation engine: errors, selection predicates,
//! type-erased column storage, cursors, and the select dispatchers.

pub mod bounds;
pub mod column;
pub mod control;
pub mod result;
pub mod selection;

use vstd::prelude::*;

use self::bounds::SelectionBound;
use self::column::ColumnItem;
use self::column::ColumnValue;
use self::column::RelationColumnIter;
use self::control::LiftErr;
use self::result::RelationError;
use self::result::RelationResult;
use self::selection::RelationColumnSelection;
use self::selection::spec_from_any;

verus! {

/// The ordered results of one `select` call, one entry per produced row
/// tuple, in call order.
pub struct SelectResult<Values> {
    pub values: Vec<Values>,
}

/// Whether `out` is a possible result of successfully mapping the value
/// held by `b` through `f`, keeping the bound's shape.
pub open spec fn spec_bound_mapped_ok<T, U, E, F: Fn(T) -> Result<U, E>>(
    f: F,
    b: SelectionBound<T>,
    out: SelectionBound<U>,
) -> bool {
    match b {
        SelectionBound::Included(v) => match out {
            SelectionBound::Included(u) => call_ensures(f, (v,), Ok::<U, E>(u)),
            _ => false,
        },
        SelectionBound::Excluded(v) => match out {
            SelectionBound::Excluded(u) => call_ensures(f, (v,), Ok::<U, E>(u)),
            _ => false,
        },
        SelectionBound::Unbounded => out is Unbounded,
    }
}

/// Whether `e` is a possible error of mapping the value held by `b`
/// through `f`; `Unbounded` holds no value and cannot fail.
pub open spec fn spec_bound_mapped_err<T, U, E, F: Fn(T) -> Result<U, E>>(
    f: F,
    b: SelectionBound<T>,
    e: E,
) -> bool {
    match b {
        SelectionBound::Included(v) => call_ensures(f, (v,), Err::<U, E>(e)),
        SelectionBound::Excluded(v) => call_ensures(f, (v,), Err::<U, E>(e)),
        SelectionBound::Unbounded => false,
    }
}

/// Whether `f` may be called on the value held by `b`.
pub open spec fn spec_bound_requires<T, U, E, F: Fn(T) -> Result<U, E>>(
    f: F,
    b: SelectionBound<T>,
) -> bool {
    match b {
        SelectionBound::Included(v) => call_requires(f, (v,)),
        SelectionBound::Excluded(v) => call_requires(f, (v,)),
        SelectionBound::Unbounded => true,
    }
}

impl<TItem: Copy> RelationColumnSelection<TItem> {
    /// Applies a fallible conversion to every bound value, keeping the
    /// selection's shape; the first failing bound's error wins, in
    /// lower-upper order.
    pub fn try_map<TOut, TErr, F: Fn(TItem) -> Result<TOut, TErr>>(&self, f: &F) -> (r: Result<
        RelationColumnSelection<TOut>,
        TErr,
    >)
        requires
            match *self {
                RelationColumnSelection::BoundsSelection { bounds } => spec_bound_requires(
                    *f,
                    bounds.0,
                ) && spec_bound_requires(*f, bounds.1),
                RelationColumnSelection::AllItems => true,
            },
        ensures
            match *self {
                RelationColumnSelection::BoundsSelection { bounds } => match r {
                    Ok(RelationColumnSelection::BoundsSelection { bounds: out }) => (
                    spec_bound_mapped_ok(*f, bounds.0, out.0) && spec_bound_mapped_ok(
                        *f,
                        bounds.1,
                        out.1,
                    )),
                    Ok(_) => false,
                    Err(e) => spec_bound_mapped_err(*f, bounds.0, e) || ((exists|u: SelectionBound<
                        TOut,
                    >| spec_bound_mapped_ok(*f, bounds.0, u)) && spec_bound_mapped_err(
                        *f,
                        bounds.1,
                        e,
                    )),
                },
                RelationColumnSelection::AllItems => r == Result::<
                    RelationColumnSelection<TOut>,
                    TErr,
                >::Ok(RelationColumnSelection::AllItems),
            },
    {
        match self {
            RelationColumnSelection::BoundsSelection { bounds } => {
                let b1 = bounds::try_map(&bounds.0, f);
                let b2 = bounds::try_map(&bounds.1, f);
                proof {
                    assert(b1 matches Ok(low) ==> spec_bound_mapped_ok::<TItem, TOut, TErr, F>(
                        *f,
                        bounds.0,
                        low,
                    ));
                    assert(b1 matches Err(e) ==> spec_bound_mapped_err::<TItem, TOut, TErr, F>(
                        *f,
                        bounds.0,
                        e,
                    ));
                    assert(b2 matches Ok(high) ==> spec_bound_mapped_ok::<TItem, TOut, TErr, F>(
                        *f,
                        bounds.1,
                        high,
                    ));
                    assert(b2 matches Err(e) ==> spec_bound_mapped_err::<TItem, TOut, TErr, F>(
                        *f,
                        bounds.1,
                        e,
                    ));
                }
                match (b1, b2).lift_err() {
                    Ok((low, high)) => Ok(
                        RelationColumnSelection::BoundsSelection { bounds: (low, high) },
                    ),
                    Err(e) => Err(e),
                }
            },
            RelationColumnSelection::AllItems => Ok(RelationColumnSelection::AllItems),
        }
    }
}

impl RelationColumnSelection<ColumnValue> {
    /// Recovers the type-erased bounds against a concrete element type;
    /// a bound of another type yields `IncorrectBoundsType`.
    pub fn from_any<TValue: ColumnItem>(&self) -> (r: RelationResult<
        RelationColumnSelection<TValue>,
    >)
        ensures
            r == spec_from_any::<TValue>(*self),
    {
        let recover = |item: ColumnValue| -> (res: Result<TValue, RelationError>)
            ensures
                res == match TValue::spec_try_unwrap(item) {
                    Some(x) => Result::<TValue, RelationError>::Ok(x),
                    None => Result::<TValue, RelationError>::Err(
                        RelationError::IncorrectBoundsType {
                            expected: TValue::spec_column_type(),
                            actual: item.spec_typ(),
                        },
                    ),
                },
            {
                match TValue::try_unwrap(item) {
                    Some(x) => Ok(x),
                    None => Err(
                        RelationError::incorrect_bounds_type(TValue::column_type(), item.typ()),
                    ),
                }
            };
        let r = self.try_map(&recover);
        proof {
            assert(forall|x: ColumnValue, y: Result<TValue, RelationError>|
                call_ensures(recover, (x,), y) ==> y == match TValue::spec_try_unwrap(x) {
                    Some(v) => Result::<TValue, RelationError>::Ok(v),
                    None => Result::<TValue, RelationError>::Err(
                        RelationError::IncorrectBoundsType {
                            expected: TValue::spec_column_type(),
                            actual: x.spec_typ(),
                        },
                    ),
                });
        }
        r
    }
}

/// Invokes `f` once per element a fresh cursor yields, in storage order,
/// collecting the results in call order: the arity-one dispatcher.
pub fn dispatch_one<A1, TResult, F: Fn(A1) -> TResult>(
    it1: &mut RelationColumnIter<'_, A1>,
    f: &F,
) -> (r: Vec<TResult>) where A1: ColumnItem
    requires
        old(it1).wf(),
        old(it1).spec_index() == 0,
        forall|i: int|
            0 <= i < old(it1).spec_filtered().len() ==> call_requires(
                *f,
                (old(it1).spec_filtered()[i],),
            ),
    ensures
        r@.len() == old(it1).spec_filtered().len(),
        forall|i: int|
            0 <= i < r@.len() ==> call_ensures(*f, (old(it1).spec_filtered()[i],), #[trigger] r@[i]),
{
    let ghost filtered = it1.spec_filtered();
    let mut out: Vec<TResult> = Vec::new();
    proof {
        assert(it1.spec_values().take(0) =~= Seq::<A1>::empty());
    }
    loop
        invariant
            it1.wf(),
            it1.spec_values() == old(it1).spec_values(),
            it1.spec_selection() == old(it1).spec_selection(),
            filtered == it1.spec_filtered(),
            out@.len() <= filtered.len(),
            it1.spec_emitted() == filtered.take(out@.len() as int),
            forall|i: int|
                0 <= i < out@.len() ==> call_ensures(*f, (filtered[i],), #[trigger] out@[i]),
            forall|i: int| 0 <= i < filtered.len() ==> call_requires(*f, (filtered[i],)),
        ensures
            out@.len() == filtered.len(),
            forall|i: int|
                0 <= i < out@.len() ==> call_ensures(*f, (filtered[i],), #[trigger] out@[i]),
        decreases it1.spec_values().len() - it1.spec_index(),
    {
        let ghost n = out@.len() as int;
        match it1.next() {
            None => {
                proof {
                    assert(filtered.take(n) =~= filtered.take(filtered.len() as int));
                    assert(filtered.take(filtered.len() as int) =~= filtered);
                }
                break ;
            },
            Some(a) => {
                proof {
                    column::lemma_emitted_prefix(
                        it1.spec_values(),
                        it1.spec_selection(),
                        it1.spec_index(),
                    );
                    assert(filtered.take(n).len() == n);
                    assert(it1.spec_emitted() == filtered.take(n).push(a));
                    assert(it1.spec_emitted().len() == n + 1);
                    assert(it1.spec_emitted() == filtered.take(n + 1));
                    assert(filtered.take(n).push(a)[n] == a);
                    assert(filtered.take(n + 1)[n] == filtered[n]);
                    assert(a == filtered[n]);
                }
                out.push(f(a));
            },
        }
    }
    out
}

/// The smaller of two integers.
pub open spec fn spec_min(a: int, b: int) -> int {
    if a <= b {
        a
    } else {
        b
    }
}

/// Zips two fresh cursors positionally and invokes `f` once per produced
/// pair, in increasing pair order, stopping as soon as either filtered
/// sequence is exhausted: the arity-two dispatcher.
pub fn dispatch<A1, A2, TResult, F: Fn(A1, A2) -> TResult>(
    it1: &mut RelationColumnIter<'_, A1>,
    it2: &mut RelationColumnIter<'_, A2>,
    f: &F,
) -> (r: Vec<TResult>) where A1: ColumnItem, A2: ColumnItem
    requires
        old(it1).wf(),
        old(it2).wf(),
        old(it1).spec_index() == 0,
        old(it2).spec_index() == 0,
        forall|i: int|
            0 <= i < old(it1).spec_filtered().len() && i < old(it2).spec_filtered().len()
                ==> call_requires(*f, (old(it1).spec_filtered()[i], old(it2).spec_filtered()[i])),
    ensures
        r@.len() == spec_min(
            old(it1).spec_filtered().len() as int,
            old(it2).spec_filtered().len() as int,
        ),
        forall|i: int|
            0 <= i < r@.len() ==> call_ensures(
                *f,
                (old(it1).spec_filtered()[i], old(it2).spec_filtered()[i]),
                #[trigger] r@[i],
            ),
{
    let ghost f1 = it1.spec_filtered();
    let ghost f2 = it2.spec_filtered();
    let mut out: Vec<TResult> = Vec::new();
    proof {
        assert(it1.spec_values().take(0) =~= Seq::<A1>::empty());
        assert(it2.spec_values().take(0) =~= Seq::<A2>::empty());
    }
    loop
        invariant_except_break
            out@.len() <= f1.len(),
            out@.len() <= f2.len(),
            it1.spec_emitted() == f1.take(out@.len() as int),
            it2.spec_emitted() == f2.take(out@.len() as int),
        invariant
            it1.wf(),
            it2.wf(),
            it1.spec_values() == old(it1).spec_values(),
            it1.spec_selection() == old(it1).spec_selection(),
            it2.spec_values() == old(it2).spec_values(),
            it2.spec_selection() == old(it2).spec_selection(),
            f1 == it1.spec_filtered(),
            f2 == it2.spec_filtered(),
            forall|i: int|
                0 <= i < out@.len() ==> call_ensures(*f, (f1[i], f2[i]), #[trigger] out@[i]),
            forall|i: int|
                0 <= i < f1.len() && i < f2.len() ==> call_requires(*f, (f1[i], f2[i])),
        ensures
            out@.len() == spec_min(f1.len() as int, f2.len() as int),
            forall|i: int|
                0 <= i < out@.len() ==> call_ensures(*f, (f1[i], f2[i]), #[trigger] out@[i]),
        decreases it1.spec_values().len() - it1.spec_index(),
    {
        let ghost n = out@.len() as int;
        match it1.next() {
            None => {
                proof {
                    assert(f1.take(n) =~= f1.take(f1.len() as int));
                    assert(f1.take(f1.len() as int) =~= f1);
                }
                break ;
            },
            Some(a) => {
                proof {
                    column::lemma_emitted_prefix(
                        it1.spec_values(),
                        it1.spec_selection(),
                        it1.spec_index(),
                    );
                    assert(f1.take(n).len() == n);
                    assert(it1.spec_emitted() == f1.take(n).push(a));
                    assert(it1.spec_emitted().len() == n + 1);
                    assert(it1.spec_emitted() == f1.take(n + 1));
                    assert(f1.take(n).push(a)[n] == a);
                    assert(f1.take(n + 1)[n] == f1[n]);
                    assert(a == f1[n]);
                }
                match it2.next() {
                    None => {
                        proof {
                            assert(f2.take(n) =~= f2.take(f2.len() as int));
                            assert(f2.take(f2.len() as int) =~= f2);
                        }
                        break ;
                    },
                    Some(b) => {
                        proof {
                            column::lemma_emitted_prefix(
                                it2.spec_values(),
                                it2.spec_selection(),
                                it2.spec_index(),
                            );
                            assert(f2.take(n).len() == n);
                            assert(it2.spec_emitted() == f2.take(n).push(b));
                            assert(it2.spec_emitted().len() == n + 1);
                            assert(it2.spec_emitted() == f2.take(n + 1));
                            assert(f2.take(n).push(b)[n] == b);
                            assert(f2.take(n + 1)[n] == f2[n]);
                            assert(b == f2[n]);
                        }
                        out.push(f(a, b));
                    },
                }
            },
        }
    }
    out
}

} // verus!
