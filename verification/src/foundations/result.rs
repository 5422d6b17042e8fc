//! The closed error taxonomy of the relation engine. Every failure is
//! detected eagerly and returned as an explicit value.

use vstd::prelude::*;

verus! {

/// The concrete element type a column stores, recorded so that a failed
/// runtime type recovery can report both sides of the mismatch.
#[derive(Clone, Copy, PartialEq, Eq, Structural, Debug)]
pub enum ColumnType {
    IntType,
    BoolType,
}

/// A caller or schema contract violation; none of these are transient.
#[derive(Debug)]
pub enum RelationError {
    /// The requested element type does not match the stored column type.
    IncorrectColumnType { column: String, expected: ColumnType, actual: ColumnType },
    /// The number of requested columns does not match the projection arity.
    IncorrectColumnCount { expected: usize, actual: usize },
    /// A selection bound's type does not match the column's element type.
    IncorrectBoundsType { expected: ColumnType, actual: ColumnType },
    /// The requested column is absent from the relation.
    UnknownColumn { column: String },
    /// A row's width disagrees with the declared column count.
    ArityMismatch { expected: usize, actual: usize },
}

pub type RelationResult<TResult> = Result<TResult, RelationError>;

impl RelationError {
    pub fn raise_incorrect_column_count<T>(expected: usize, actual: usize) -> (r: RelationResult<
        T,
    >)
        ensures
            r == Result::<T, RelationError>::Err(
                RelationError::IncorrectColumnCount { expected, actual },
            ),
    {
        Result::Err(Self::IncorrectColumnCount { expected, actual })
    }

    pub fn raise_incorrect_column_type<T>(
        column: &String,
        expected: ColumnType,
        actual: ColumnType,
    ) -> (r: RelationResult<T>)
        ensures
            r == Result::<T, RelationError>::Err(
                RelationError::IncorrectColumnType { column: *column, expected, actual },
            ),
    {
        Result::Err(Self::incorrect_column_type(column.clone(), expected, actual))
    }

    pub fn incorrect_column_type(column: String, expected: ColumnType, actual: ColumnType) -> (r:
        RelationError)
        ensures
            r == (RelationError::IncorrectColumnType { column, expected, actual }),
    {
        RelationError::IncorrectColumnType { column, expected, actual }
    }

    pub fn incorrect_bounds_type(expected: ColumnType, actual: ColumnType) -> (r: RelationError)
        ensures
            r == (RelationError::IncorrectBoundsType { expected, actual }),
    {
        RelationError::IncorrectBoundsType { expected, actual }
    }

    pub fn raise_unknown_column<T>(column: &String) -> (r: RelationResult<T>)
        ensures
            r == Result::<T, RelationError>::Err(
                RelationError::UnknownColumn { column: *column },
            ),
    {
        Result::Err(RelationError::UnknownColumn { column: column.clone() })
    }
}

} // verus!
