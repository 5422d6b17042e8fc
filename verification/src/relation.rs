//! Building a relation from row-oriented input.

use vstd::prelude::*;

use crate::data::StaticRelation;
use crate::foundations::column::ColumnValue;
use crate::foundations::result::RelationError;
use crate::foundations::result::RelationResult;
use crate::support::ToColumn;
use crate::support::lemma_to_map_distinct_append;
use crate::support::lemma_to_map_len;
use crate::support::lemma_to_map_wf;
use crate::support::spec_columns_even;

verus! {

/// The tagged values one column receives from a sequence of rows: the
/// rows' elements at that position, in row order.
pub open spec fn spec_built_column<Item: ToColumn>(rows: Seq<Item>, j: int) -> Seq<ColumnValue> {
    Seq::new(rows.len(), |i: int| rows[i].spec_element(j))
}

/// No name appears twice in a declaration.
pub open spec fn spec_distinct_names(names: Seq<String>) -> bool {
    forall|j: int, k: int| 0 <= j < k < names.len() ==> names[j]@ != names[k]@
}

/// Builds a relation from a declared list of column names and a
/// sequence of rows: one column per name, with the element type of its
/// position, holding the rows' values at that position in row order.
/// A declaration whose width differs from the rows' width is rejected
/// whole; a repeated name keeps its first position and takes the later
/// position's column.
pub fn from_iterable<Item: ToColumn>(columns: &Vec<String>, values: Vec<Item>) -> (r:
    RelationResult<StaticRelation>)
    ensures
        match r {
            Ok(rel) => {
                &&& columns@.len() == Item::spec_width()
                &&& rel.wf()
                &&& spec_columns_even(rel.columns@, values@.len() as int)
                &&& columns@.len() > 0 ==> rel.spec_row_count() == values@.len()
                &&& spec_distinct_names(columns@) ==> {
                    &&& rel.columns@.len() == columns@.len()
                    &&& forall|j: int|
                        0 <= j < columns@.len() ==> (#[trigger] rel.columns@[j]).0 == columns@[j]
                    &&& forall|j: int|
                        0 <= j < columns@.len() ==> (#[trigger] rel.columns@[j]).1.typ()
                            == Item::spec_col_type(j)
                    &&& forall|j: int|
                        0 <= j < columns@.len() ==> (#[trigger] rel.columns@[j]).1@
                            == spec_built_column(values@, j)
                }
            },
            Err(e) => columns@.len() != Item::spec_width() && e == (RelationError::ArityMismatch {
                expected: columns@.len() as usize,
                actual: Item::spec_width() as usize,
            }),
        },
{
    let ghost rows = values@;
    let width = Item::width();
    if columns.len() != width {
        return Err(RelationError::ArityMismatch { expected: columns.len(), actual: width });
    }
    let mut data = Item::init_columns(columns);
    let mut values = values;
    proof {
        assert(rows.skip(0) =~= rows);
        assert forall|j: int| 0 <= j < Item::spec_width() implies (#[trigger] data.column_values@[
            j
        ])@ == spec_built_column(rows.take(0), j) by {
            assert(spec_built_column(rows.take(0), j) =~= Seq::<ColumnValue>::empty());
        };
    }
    while values.len() > 0
        invariant
            values@.len() <= rows.len(),
            values@ == rows.skip(rows.len() - values@.len()),
            data.column_names@ == columns@,
            data.column_values@.len() == Item::spec_width(),
            forall|j: int|
                0 <= j < Item::spec_width() ==> (#[trigger] data.column_values@[j]).typ()
                    == Item::spec_col_type(j),
            forall|j: int|
                0 <= j < Item::spec_width() ==> (#[trigger] data.column_values@[j])@
                    == spec_built_column(rows.take(rows.len() - values@.len()), j),
        decreases values@.len(),
    {
        let ghost k = rows.len() - values@.len();
        let value = values.remove(0);
        proof {
            assert(value == rows[k as int]);
            assert(values@ =~= rows.skip(k as int + 1));
        }
        <Item as ToColumn>::add_column(value, &mut data);
        proof {
            assert forall|j: int|
                0 <= j < Item::spec_width() implies (#[trigger] data.column_values@[j])@
                == spec_built_column(rows.take(k as int + 1), j) by {
                assert(spec_built_column(rows.take(k as int + 1), j) =~= spec_built_column(
                    rows.take(k as int),
                    j,
                ).push(rows[k as int].spec_element(j)));
            };
        }
    }
    proof {
        assert(rows.take(rows.len() as int) =~= rows);
    }
    let ghost names = data.column_names@;
    let ghost containers = data.column_values@;
    let map = data.to_hash_map();
    let rel = StaticRelation { columns: map };
    proof {
        assert forall|j: int| 0 <= j < containers.len() implies (#[trigger] containers[j])@.len()
            == rows.len() by {
            assert(containers[j]@ == spec_built_column(rows, j));
        };
        lemma_to_map_wf(
            Seq::<(String, crate::foundations::column::RelationColumnContainer)>::empty(),
            names,
            containers,
            rows.len() as int,
        );
        lemma_to_map_len(
            Seq::<(String, crate::foundations::column::RelationColumnContainer)>::empty(),
            names,
            containers,
        );
        if spec_distinct_names(columns@) {
            lemma_to_map_distinct_append(
                Seq::<(String, crate::foundations::column::RelationColumnContainer)>::empty(),
                names,
                containers,
            );
            assert(rel.columns@ =~= Seq::new(
                names.len(),
                |j: int| (names[j], containers[j]),
            ));
        }
    }
    Ok(rel)
}

} // verus!
