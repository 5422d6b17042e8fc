use histon::add;
use histon::data::StaticRelation;
use histon::foundations::bounds::SelectionBound;
use histon::foundations::column::ColumnItem;
use histon::foundations::column::ColumnValue;
use histon::foundations::column::RelationColumnIter;
use histon::foundations::result::ColumnType;
use histon::foundations::result::RelationError;
use histon::foundations::selection::RelationColumnSelection;
use histon::relation::from_iterable;

fn names(list: &[&str]) -> Vec<String> {
    list.iter().map(|s| String::from(*s)).collect()
}

fn drain(mut cursor: RelationColumnIter<'_, i64>) -> Vec<i64> {
    let mut out = Vec::new();
    while let Some(v) = cursor.next() {
        out.push(v);
    }
    out
}

#[test]
fn it_works() {
    let result = add(2, 2);
    assert_eq!(result, 4);
}

#[test]
fn test_select() {
    let columns = names(&["one", "two"]);
    let values: Vec<(i64, i64)> = vec![(1, 2), (3, 4), (5, 6)];
    let select_fn = |one: i64, two: i64| -> i64 { one + two };
    let expected: Vec<i64> = values.iter().map(|(v1, v2)| select_fn(*v1, *v2)).collect();

    let relation = from_iterable(&columns, values.clone()).unwrap();
    let select = relation.try_select(&columns, select_fn);

    for (actual, expected) in select.unwrap().values.iter().zip(expected) {
        assert_eq!(actual.clone(), expected);
    }
}

#[test]
fn select_sums_each_row_in_order() {
    let columns = names(&["one", "two"]);
    let values: Vec<(i64, i64)> = vec![(1, 2), (3, 4), (5, 6)];
    let relation = from_iterable(&columns, values).unwrap();
    let result = relation
        .try_select(&columns, |a: i64, b: i64| a + b)
        .unwrap();
    assert_eq!(result.values, vec![3, 7, 11]);
}

#[test]
fn select_length_matches_row_count() {
    let columns = names(&["one", "two"]);
    let values: Vec<(i64, i64)> = vec![(10, 20), (30, 40), (50, 60), (70, 80)];
    let relation = from_iterable(&columns, values).unwrap();
    assert_eq!(relation.row_count(), 4);
    let both = relation
        .try_select(&columns, |a: i64, b: i64| (a, b))
        .unwrap();
    assert_eq!(both.values.len(), relation.row_count());
    let one = relation
        .try_select_one(&names(&["one"]), |a: i64| a)
        .unwrap();
    assert_eq!(one.values.len(), relation.row_count());
}

#[test]
fn select_identity_reproduces_column() {
    let columns = names(&["one", "two"]);
    let values: Vec<(i64, i64)> = vec![(1, 2), (3, 4), (5, 6)];
    let relation = from_iterable(&columns, values).unwrap();
    let first = relation
        .try_select_one(&names(&["one"]), |v: i64| v)
        .unwrap();
    assert_eq!(first.values, vec![1, 3, 5]);
    let second = relation
        .try_select_one(&names(&["two"]), |v: i64| v)
        .unwrap();
    assert_eq!(second.values, vec![2, 4, 6]);
}

#[test]
fn select_wrong_type_is_rejected() {
    let columns = names(&["one", "two"]);
    let values: Vec<(i64, i64)> = vec![(1, 2), (3, 4)];
    let relation = from_iterable(&columns, values).unwrap();
    let result = relation.try_select_one(&names(&["one"]), |v: bool| v);
    match result {
        Err(RelationError::IncorrectColumnType { column, expected, actual }) => {
            assert_eq!(column, String::from("one"));
            assert_eq!(expected, ColumnType::BoolType);
            assert_eq!(actual, ColumnType::IntType);
        },
        _ => panic!("a bool request against an int column must be rejected"),
    }
}

#[test]
fn select_wrong_arity_is_rejected() {
    let columns = names(&["a", "b"]);
    let values: Vec<(i64, i64)> = vec![(1, 2)];
    let relation = from_iterable(&columns, values).unwrap();
    let result = relation.try_select_one(&columns, |v: i64| v);
    match result {
        Err(RelationError::IncorrectColumnCount { expected, actual }) => {
            assert_eq!(expected, 1);
            assert_eq!(actual, 2);
        },
        _ => panic!("two requested columns must not fit a one-argument projection"),
    }
    let three = names(&["a", "b", "a"]);
    let result = relation.try_select(&three, |a: i64, b: i64| a + b);
    assert!(matches!(
        result,
        Err(RelationError::IncorrectColumnCount { expected: 2, actual: 3 })
    ));
}

#[test]
fn select_unknown_column_is_rejected() {
    let columns = names(&["one", "two"]);
    let values: Vec<(i64, i64)> = vec![(1, 2)];
    let relation = from_iterable(&columns, values).unwrap();
    let result = relation.try_select_one(&names(&["missing"]), |v: i64| v);
    match result {
        Err(RelationError::UnknownColumn { column }) => {
            assert_eq!(column, String::from("missing"));
        },
        _ => panic!("an absent column name must be rejected"),
    }
}

#[test]
fn per_column_validation_runs_in_declared_order() {
    let columns = names(&["one", "two"]);
    let values: Vec<(i64, i64)> = vec![(1, 2)];
    let relation = from_iterable(&columns, values).unwrap();
    // The first requested column fails the type check before the second
    // is even looked up.
    let result = relation.try_select(&names(&["one", "missing"]), |a: bool, b: i64| (a, b));
    assert!(matches!(
        result,
        Err(RelationError::IncorrectColumnType { .. })
    ));
    // The arity check runs before any column access.
    let result = relation.try_select(&names(&["missing"]), |a: i64, b: i64| (a, b));
    assert!(matches!(
        result,
        Err(RelationError::IncorrectColumnCount { expected: 2, actual: 1 })
    ));
}

#[test]
fn cursor_bounds_filter_keeps_the_interval() {
    let columns = names(&["nums", "pad"]);
    let values: Vec<(i64, i64)> = vec![(1, 0), (3, 0), (5, 0), (7, 0), (9, 0)];
    let relation = from_iterable(&columns, values).unwrap();
    let selection = RelationColumnSelection::BoundsSelection {
        bounds: (
            SelectionBound::Included(3i64.wrap()),
            SelectionBound::Included(7i64.wrap()),
        ),
    };
    assert_eq!(3i64.wrap(), ColumnValue::IntValue(3));
    let cursor = relation
        .cursor::<i64>(&String::from("nums"), Some(selection))
        .unwrap();
    assert_eq!(drain(cursor), vec![3, 5, 7]);
}

#[test]
fn cursor_excluded_bounds_are_strict() {
    let columns = names(&["nums", "pad"]);
    let values: Vec<(i64, i64)> = vec![(1, 0), (3, 0), (5, 0), (7, 0), (9, 0)];
    let relation = from_iterable(&columns, values).unwrap();
    let selection = RelationColumnSelection::BoundsSelection {
        bounds: (
            SelectionBound::Excluded(ColumnValue::IntValue(3)),
            SelectionBound::Excluded(ColumnValue::IntValue(9)),
        ),
    };
    let cursor = relation
        .cursor::<i64>(&String::from("nums"), Some(selection))
        .unwrap();
    assert_eq!(drain(cursor), vec![5, 7]);
}

#[test]
fn cursor_without_selection_yields_everything() {
    let columns = names(&["nums", "pad"]);
    let values: Vec<(i64, i64)> = vec![(9, 0), (1, 0), (4, 0)];
    let relation = from_iterable(&columns, values).unwrap();
    let cursor = relation.cursor::<i64>(&String::from("nums"), None).unwrap();
    assert_eq!(drain(cursor), vec![9, 1, 4]);
}

#[test]
fn cursor_wrong_bounds_type_is_rejected_eagerly() {
    let columns = names(&["nums", "pad"]);
    let values: Vec<(i64, i64)> = vec![(1, 0), (2, 0)];
    let relation = from_iterable(&columns, values).unwrap();
    let selection = RelationColumnSelection::BoundsSelection {
        bounds: (
            SelectionBound::Included(ColumnValue::BoolValue(false)),
            SelectionBound::Unbounded,
        ),
    };
    let result = relation.cursor::<i64>(&String::from("nums"), Some(selection));
    match result {
        Err(RelationError::IncorrectBoundsType { expected, actual }) => {
            assert_eq!(expected, ColumnType::IntType);
            assert_eq!(actual, ColumnType::BoolType);
        },
        _ => panic!("a bool bound against an int column must be rejected at cursor creation"),
    }
}

#[test]
fn build_rejects_width_mismatch() {
    let columns = names(&["a", "b", "c"]);
    let values: Vec<(i64, i64)> = vec![(1, 2)];
    let result = from_iterable(&columns, values);
    match result {
        Err(RelationError::ArityMismatch { expected, actual }) => {
            assert_eq!(expected, 3);
            assert_eq!(actual, 2);
        },
        _ => panic!("three declared names must not fit rows of width two"),
    }
}

#[test]
fn empty_relation_selects_nothing() {
    let columns = names(&["a", "b"]);
    let values: Vec<(i64, i64)> = Vec::new();
    let relation = from_iterable(&columns, values).unwrap();
    assert_eq!(relation.row_count(), 0);
    let result = relation
        .try_select(&columns, |a: i64, b: i64| a + b)
        .unwrap();
    assert_eq!(result.values.len(), 0);
}

#[test]
fn bool_columns_are_stored_and_selected() {
    let columns = names(&["n", "flag"]);
    let values: Vec<(i64, bool)> = vec![(1, true), (2, false), (3, true)];
    let relation = from_iterable(&columns, values).unwrap();
    let flags = relation
        .try_select_one(&names(&["flag"]), |v: bool| v)
        .unwrap();
    assert_eq!(flags.values, vec![true, false, true]);
    let pairs = relation
        .try_select(&columns, |n: i64, flag: bool| if flag { n } else { -n })
        .unwrap();
    assert_eq!(pairs.values, vec![1, -2, 3]);
}

#[test]
fn repeated_name_keeps_first_position_and_later_column() {
    let columns = names(&["a", "a"]);
    let values: Vec<(i64, i64)> = vec![(1, 2), (3, 4)];
    let relation = from_iterable(&columns, values).unwrap();
    assert_eq!(relation.column_names(), names(&["a"]));
    assert_eq!(relation.row_count(), 2);
    let column = relation
        .try_select_one(&names(&["a"]), |v: i64| v)
        .unwrap();
    assert_eq!(column.values, vec![2, 4]);
}

#[test]
fn column_names_keep_declared_order() {
    let columns = names(&["zeta", "alpha"]);
    let values: Vec<(i64, i64)> = vec![(1, 2)];
    let relation = from_iterable(&columns, values).unwrap();
    assert_eq!(relation.column_names(), columns);
}

#[test]
fn contains_follows_interval_containment() {
    let all: RelationColumnSelection<i64> = RelationColumnSelection::AllItems;
    assert!(all.contains(&0));
    let range: RelationColumnSelection<i64> = RelationColumnSelection::BoundsSelection {
        bounds: (SelectionBound::Included(3), SelectionBound::Excluded(7)),
    };
    assert!(!range.contains(&2));
    assert!(range.contains(&3));
    assert!(range.contains(&6));
    assert!(!range.contains(&7));
    let open: RelationColumnSelection<i64> = RelationColumnSelection::BoundsSelection {
        bounds: (SelectionBound::Unbounded, SelectionBound::Unbounded),
    };
    assert!(open.contains(&-100));
}

#[test]
fn raise_helpers_build_the_matching_variants() {
    let count: Result<(), RelationError> = RelationError::raise_incorrect_column_count(2, 5);
    assert!(matches!(
        count,
        Err(RelationError::IncorrectColumnCount { expected: 2, actual: 5 })
    ));
    let typed: Result<(), RelationError> = RelationError::raise_incorrect_column_type(
        &String::from("c"),
        ColumnType::IntType,
        ColumnType::BoolType,
    );
    assert!(matches!(
        typed,
        Err(RelationError::IncorrectColumnType { .. })
    ));
    let unknown: Result<(), RelationError> =
        RelationError::raise_unknown_column(&String::from("x"));
    assert!(matches!(unknown, Err(RelationError::UnknownColumn { .. })));
}

#[test]
fn cursors_are_forward_only() {
    let columns = names(&["nums", "pad"]);
    let values: Vec<(i64, i64)> = vec![(1, 0), (2, 0)];
    let relation = from_iterable(&columns, values).unwrap();
    let mut cursor = relation.cursor::<i64>(&String::from("nums"), None).unwrap();
    assert_eq!(cursor.next(), Some(1));
    assert_eq!(cursor.next(), Some(2));
    assert_eq!(cursor.next(), None);
    assert_eq!(cursor.next(), None);
}

#[test]
fn relation_fields_expose_the_columns() {
    let columns = names(&["one", "two"]);
    let values: Vec<(i64, i64)> = vec![(1, 2)];
    let relation: StaticRelation = from_iterable(&columns, values).unwrap();
    assert_eq!(relation.columns.len(), 2);
    assert_eq!(relation.columns[0].0, String::from("one"));
    assert_eq!(relation.columns[1].0, String::from("two"));
}

#[test]
fn bool_bounds_follow_false_before_true() {
    let columns = names(&["n", "flag"]);
    let values: Vec<(i64, bool)> = vec![(1, true), (2, false), (3, true), (4, false)];
    let relation = from_iterable(&columns, values).unwrap();
    let selection = RelationColumnSelection::BoundsSelection {
        bounds: (
            SelectionBound::Included(ColumnValue::BoolValue(false)),
            SelectionBound::Excluded(ColumnValue::BoolValue(true)),
        ),
    };
    let mut cursor = relation
        .cursor::<bool>(&String::from("flag"), Some(selection))
        .unwrap();
    let mut kept = Vec::new();
    while let Some(v) = cursor.next() {
        kept.push(v);
    }
    assert_eq!(kept, vec![false, false]);
}
