//! Per-column selection predicates: either "no filter" or a pair of
//! bounds over the column element type's total order.

use vstd::prelude::*;

use super::bounds::SelectionBound;
use super::column::ColumnItem;
use super::column::ColumnValue;
use super::result::RelationError;

verus! {

/// A filter over one column's ordered values: every item, or an interval
/// given by a lower and an upper bound.
pub enum RelationColumnSelection<TItem> {
    BoundsSelection { bounds: (SelectionBound<TItem>, SelectionBound<TItem>) },
    AllItems,
}

/// A selection whose bounds are type-erased; the concrete bound type is
/// recovered against a column's element type on cursor creation.
pub type RelationColumnSelectionDyn = RelationColumnSelection<ColumnValue>;

/// Strict order derived from the element type's total order.
pub open spec fn spec_lt<TItem: ColumnItem>(a: TItem, b: TItem) -> bool {
    a.spec_item_le(b) && !b.spec_item_le(a)
}

/// Whether a value lies above the lower bound.
pub open spec fn spec_lower_admits<TItem: ColumnItem>(b: SelectionBound<TItem>, v: TItem) -> bool {
    match b {
        SelectionBound::Included(x) => x.spec_item_le(v),
        SelectionBound::Excluded(x) => spec_lt(x, v),
        SelectionBound::Unbounded => true,
    }
}

/// Whether a value lies below the upper bound.
pub open spec fn spec_upper_admits<TItem: ColumnItem>(b: SelectionBound<TItem>, v: TItem) -> bool {
    match b {
        SelectionBound::Included(x) => v.spec_item_le(x),
        SelectionBound::Excluded(x) => spec_lt(v, x),
        SelectionBound::Unbounded => true,
    }
}

/// Standard interval containment; `AllItems` admits everything.
pub open spec fn spec_sel_contains<TItem: ColumnItem>(
    sel: RelationColumnSelection<TItem>,
    v: TItem,
) -> bool {
    match sel {
        RelationColumnSelection::BoundsSelection { bounds } => spec_lower_admits(bounds.0, v)
            && spec_upper_admits(bounds.1, v),
        RelationColumnSelection::AllItems => true,
    }
}

/// Recovers one type-erased bound against a concrete element type.
pub open spec fn spec_bound_from_any<TItem: ColumnItem>(b: SelectionBound<ColumnValue>) -> Result<
    SelectionBound<TItem>,
    RelationError,
> {
    match b {
        SelectionBound::Included(v) => match TItem::spec_try_unwrap(v) {
            Some(x) => Ok(SelectionBound::Included(x)),
            None => Err(
                RelationError::IncorrectBoundsType {
                    expected: TItem::spec_column_type(),
                    actual: v.spec_typ(),
                },
            ),
        },
        SelectionBound::Excluded(v) => match TItem::spec_try_unwrap(v) {
            Some(x) => Ok(SelectionBound::Excluded(x)),
            None => Err(
                RelationError::IncorrectBoundsType {
                    expected: TItem::spec_column_type(),
                    actual: v.spec_typ(),
                },
            ),
        },
        SelectionBound::Unbounded => Ok(SelectionBound::Unbounded),
    }
}

/// Recovers a type-erased selection against a concrete element type,
/// keeping the first failing bound's error in lower-upper order.
pub open spec fn spec_from_any<TItem: ColumnItem>(sel: RelationColumnSelectionDyn) -> Result<
    RelationColumnSelection<TItem>,
    RelationError,
> {
    match sel {
        RelationColumnSelection::AllItems => Ok(RelationColumnSelection::AllItems),
        RelationColumnSelection::BoundsSelection { bounds } => match (
            spec_bound_from_any::<TItem>(bounds.0),
            spec_bound_from_any::<TItem>(bounds.1),
        ) {
            (Ok(a), Ok(b)) => Ok(RelationColumnSelection::BoundsSelection { bounds: (a, b) }),
            (Err(e), _) => Err(e),
            (_, Err(e)) => Err(e),
        },
    }
}

/// Whether a type-erased bound's value carries the given element type;
/// `Unbounded` carries nothing and fits every type.
pub open spec fn spec_bound_tag_ok<TItem: ColumnItem>(b: SelectionBound<ColumnValue>) -> bool {
    match b {
        SelectionBound::Included(v) => v.spec_typ() == TItem::spec_column_type(),
        SelectionBound::Excluded(v) => v.spec_typ() == TItem::spec_column_type(),
        SelectionBound::Unbounded => true,
    }
}

/// Recovering a type-erased selection succeeds exactly when every bound
/// value carries the column's element type; a mismatch is never coerced.
pub proof fn lemma_from_any_success<TItem: ColumnItem>(sel: RelationColumnSelectionDyn)
    ensures
        spec_from_any::<TItem>(sel) is Ok <==> match sel {
            RelationColumnSelection::BoundsSelection { bounds } => spec_bound_tag_ok::<TItem>(
                bounds.0,
            ) && spec_bound_tag_ok::<TItem>(bounds.1),
            RelationColumnSelection::AllItems => true,
        },
{
    match sel {
        RelationColumnSelection::BoundsSelection { bounds } => {
            match bounds.0 {
                SelectionBound::Included(v) => TItem::lemma_unwrap_type(v),
                SelectionBound::Excluded(v) => TItem::lemma_unwrap_type(v),
                SelectionBound::Unbounded => (),
            }
            match bounds.1 {
                SelectionBound::Included(v) => TItem::lemma_unwrap_type(v),
                SelectionBound::Excluded(v) => TItem::lemma_unwrap_type(v),
                SelectionBound::Unbounded => (),
            }
        },
        RelationColumnSelection::AllItems => (),
    }
}

impl<TItem: ColumnItem> RelationColumnSelection<TItem> {
    /// Interval containment over the element type's total order:
    /// `Included` is inclusive, `Excluded` strict, `Unbounded` imposes
    /// no constraint, and `AllItems` is always true.
    pub fn contains(&self, other: &TItem) -> (r: bool)
        ensures
            r == spec_sel_contains(*self, *other),
    {
        match self {
            RelationColumnSelection::BoundsSelection { bounds } => {
                let low_ok = match &bounds.0 {
                    SelectionBound::Included(x) => x.le(*other),
                    SelectionBound::Excluded(x) => x.le(*other) && !other.le(*x),
                    SelectionBound::Unbounded => true,
                };
                let high_ok = match &bounds.1 {
                    SelectionBound::Included(x) => other.le(*x),
                    SelectionBound::Excluded(x) => other.le(*x) && !x.le(*other),
                    SelectionBound::Unbounded => true,
                };
                low_ok && high_ok
            },
            RelationColumnSelection::AllItems => true,
        }
    }
}

} // verus!
