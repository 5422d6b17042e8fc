//! The relation builder: assembles per-column storage for a declared set
//! of column names from row-oriented input.

use vstd::prelude::*;

use crate::foundations::column::ColumnItem;
use crate::foundations::column::ColumnValue;
use crate::foundations::column::RelationColumnContainer;
use crate::foundations::result::ColumnType;

verus! {

/// The first position in `m` whose key reads as `name`, or -1 if the
/// name is absent.
pub open spec fn spec_find_column(
    m: Seq<(String, RelationColumnContainer)>,
    name: Seq<char>,
) -> int
    decreases m.len(),
{
    if m.len() == 0 {
        -1
    } else if m[0].0@ == name {
        0
    } else {
        let rest = spec_find_column(m.drop_first(), name);
        if rest < 0 {
            -1
        } else {
            rest + 1
        }
    }
}

/// `spec_find_column` yields -1 exactly when the name is absent, and
/// otherwise the first matching position.
pub proof fn lemma_find_column_props(m: Seq<(String, RelationColumnContainer)>, name: Seq<char>)
    ensures
        spec_find_column(m, name) == -1 <==> (forall|k: int|
            0 <= k < m.len() ==> (#[trigger] m[k]).0@ != name),
        spec_find_column(m, name) != -1 ==> {
            let j = spec_find_column(m, name);
            &&& 0 <= j < m.len()
            &&& m[j].0@ == name
            &&& forall|k: int| 0 <= k < j ==> (#[trigger] m[k]).0@ != name
        },
    decreases m.len(),
{
    if m.len() > 0 {
        lemma_find_column_props(m.drop_first(), name);
        assert(forall|k: int| 1 <= k < m.len() ==> (#[trigger] m[k]) == m.drop_first()[k - 1]);
    }
}

/// Map insertion with overwrite: a repeated name keeps its first
/// position and original key and takes the new column; a new name is
/// appended.
pub open spec fn spec_map_insert(
    m: Seq<(String, RelationColumnContainer)>,
    key: String,
    value: RelationColumnContainer,
) -> Seq<(String, RelationColumnContainer)> {
    let j = spec_find_column(m, key@);
    if j >= 0 {
        m.update(j, (m[j].0, value))
    } else {
        m.push((key, value))
    }
}

/// Folds name-column pairs into a map, in declared order, left to right.
pub open spec fn spec_to_map(
    acc: Seq<(String, RelationColumnContainer)>,
    names: Seq<String>,
    values: Seq<RelationColumnContainer>,
) -> Seq<(String, RelationColumnContainer)>
    decreases names.len(),
{
    if names.len() == 0 || values.len() == 0 {
        acc
    } else {
        spec_to_map(
            spec_map_insert(acc, names[0], values[0]),
            names.drop_first(),
            values.drop_first(),
        )
    }
}

/// No two entries share a name.
pub open spec fn spec_keys_distinct(m: Seq<(String, RelationColumnContainer)>) -> bool {
    forall|j: int, k: int| 0 <= j < k < m.len() ==> m[j].0@ != m[k].0@
}

/// Every column holds the same number of rows.
pub open spec fn spec_columns_even(m: Seq<(String, RelationColumnContainer)>, rows: int) -> bool {
    forall|j: int| 0 <= j < m.len() ==> (#[trigger] m[j]).1@.len() == rows
}

/// Map insertion keeps names distinct and keeps columns even when the
/// inserted column has the common row count.
pub proof fn lemma_map_insert_wf(
    m: Seq<(String, RelationColumnContainer)>,
    key: String,
    value: RelationColumnContainer,
    rows: int,
)
    requires
        spec_keys_distinct(m),
        spec_columns_even(m, rows),
        value@.len() == rows,
    ensures
        spec_keys_distinct(spec_map_insert(m, key, value)),
        spec_columns_even(spec_map_insert(m, key, value), rows),
{
    lemma_find_column_props(m, key@);
}

/// Folding pairs in keeps names distinct and columns even.
pub proof fn lemma_to_map_wf(
    acc: Seq<(String, RelationColumnContainer)>,
    names: Seq<String>,
    values: Seq<RelationColumnContainer>,
    rows: int,
)
    requires
        spec_keys_distinct(acc),
        spec_columns_even(acc, rows),
        forall|j: int| 0 <= j < values.len() ==> (#[trigger] values[j])@.len() == rows,
    ensures
        spec_keys_distinct(spec_to_map(acc, names, values)),
        spec_columns_even(spec_to_map(acc, names, values), rows),
    decreases names.len(),
{
    if names.len() > 0 && values.len() > 0 {
        lemma_map_insert_wf(acc, names[0], values[0], rows);
        lemma_to_map_wf(
            spec_map_insert(acc, names[0], values[0]),
            names.drop_first(),
            values.drop_first(),
            rows,
        );
    }
}

/// With pairwise distinct names that are all new to the accumulator,
/// folding just appends the pairs in declared order.
pub proof fn lemma_to_map_distinct_append(
    acc: Seq<(String, RelationColumnContainer)>,
    names: Seq<String>,
    values: Seq<RelationColumnContainer>,
)
    requires
        names.len() == values.len(),
        forall|j: int, k: int| 0 <= j < k < names.len() ==> names[j]@ != names[k]@,
        forall|j: int, k: int|
            0 <= j < acc.len() && 0 <= k < names.len() ==> (#[trigger] acc[j]).0@ != (
            #[trigger] names[k])@,
    ensures
        spec_to_map(acc, names, values) == acc + Seq::new(
            names.len(),
            |j: int| (names[j], values[j]),
        ),
    decreases names.len(),
{
    let pairs = Seq::new(names.len(), |j: int| (names[j], values[j]));
    if names.len() == 0 {
        assert(spec_to_map(acc, names, values) =~= acc + pairs);
    } else {
        lemma_find_column_props(acc, names[0]@);
        assert(spec_find_column(acc, names[0]@) == -1);
        let acc1 = acc.push((names[0], values[0]));
        assert(spec_map_insert(acc, names[0], values[0]) == acc1);
        lemma_to_map_distinct_append(acc1, names.drop_first(), values.drop_first());
        let rest = Seq::new(
            names.drop_first().len(),
            |j: int| (names.drop_first()[j], values.drop_first()[j]),
        );
        assert(spec_to_map(acc, names, values) == acc1 + rest);
        assert(acc1 + rest =~= acc + pairs);
    }
}

/// Folding pairs in never shrinks the map, and folding at least one
/// pair in leaves it non-empty.
pub proof fn lemma_to_map_len(
    acc: Seq<(String, RelationColumnContainer)>,
    names: Seq<String>,
    values: Seq<RelationColumnContainer>,
)
    ensures
        spec_to_map(acc, names, values).len() >= acc.len(),
        names.len() > 0 && values.len() > 0 ==> spec_to_map(acc, names, values).len() > 0,
    decreases names.len(),
{
    if names.len() > 0 && values.len() > 0 {
        lemma_find_column_props(acc, names[0]@);
        assert(spec_map_insert(acc, names[0], values[0]).len() >= acc.len());
        assert(spec_map_insert(acc, names[0], values[0]).len() > 0);
        lemma_to_map_len(
            spec_map_insert(acc, names[0], values[0]),
            names.drop_first(),
            values.drop_first(),
        );
    }
}

/// Collects the declared column names and the column storage under
/// construction, one container per name, in declared order.
pub struct RelationBuilder {
    pub column_names: Vec<String>,
    pub column_values: Vec<RelationColumnContainer>,
}

/// Inserts one name-column pair into an association vector with the
/// overwrite semantics of `spec_map_insert`.
fn insert_column(
    columns: &mut Vec<(String, RelationColumnContainer)>,
    key: String,
    value: RelationColumnContainer,
)
    ensures
        final(columns)@ == spec_map_insert(old(columns)@, key, value),
{
    let mut i: usize = 0;
    while i < columns.len()
        invariant
            i <= columns@.len(),
            columns@ == old(columns)@,
            forall|k: int| 0 <= k < i ==> (#[trigger] columns@[k]).0@ != key@,
        decreases columns@.len() - i,
    {
        if columns[i].0 == key {
            proof {
                assert(columns@[i as int].0@ == key@);
                lemma_find_column_props(columns@, key@);
                assert(spec_find_column(columns@, key@) == i);
            }
            let prev = columns.remove(i);
            columns.insert(i, (prev.0, value));
            proof {
                assert(columns@ =~= spec_map_insert(old(columns)@, key, value));
            }
            return ;
        }
        i = i + 1;
    }
    proof {
        lemma_find_column_props(columns@, key@);
    }
    columns.push((key, value));
}

impl RelationBuilder {
    /// Pairs each declared name with its column, in declared order; a
    /// repeated name keeps its first position and takes the later
    /// column, as a map insertion would.
    pub fn to_hash_map(self) -> (r: Vec<(String, RelationColumnContainer)>)
        requires
            self.column_names@.len() == self.column_values@.len(),
        ensures
            r@ == spec_to_map(
                Seq::<(String, RelationColumnContainer)>::empty(),
                self.column_names@,
                self.column_values@,
            ),
    {
        let ghost orig_names = self.column_names@;
        let ghost orig_values = self.column_values@;
        let mut result: Vec<(String, RelationColumnContainer)> = Vec::new();
        let mut keys = self.column_names;
        let mut values = self.column_values;
        proof {
            assert(result@ =~= Seq::<(String, RelationColumnContainer)>::empty());
        }
        while keys.len() > 0
            invariant
                keys@.len() == values@.len(),
                spec_to_map(result@, keys@, values@) == spec_to_map(
                    Seq::<(String, RelationColumnContainer)>::empty(),
                    orig_names,
                    orig_values,
                ),
            decreases keys@.len(),
        {
            let ghost prev_keys = keys@;
            let ghost prev_values = values@;
            let key = keys.remove(0);
            let value = values.remove(0);
            proof {
                assert(keys@ =~= prev_keys.drop_first());
                assert(values@ =~= prev_values.drop_first());
            }
            insert_column(&mut result, key, value);
        }
        result
    }
}

/// Row types that can be taken apart into per-column values: declares
/// the column storage and appends one row at a time.
pub trait ToColumn: Sized {
    /// How many columns a row of this type fills.
    spec fn spec_width() -> int;

    /// The element type stored at each position.
    spec fn spec_col_type(j: int) -> ColumnType;

    /// The tagged value this row holds at each position.
    spec fn spec_element(self, j: int) -> ColumnValue;

    fn width() -> (w: usize)
        ensures
            w == Self::spec_width(),
    ;

    /// One empty container per declared name, each with the element type
    /// of its position.
    fn init_columns(columns: &Vec<String>) -> (b: RelationBuilder)
        ensures
            b.column_names@ == columns@,
            b.column_values@.len() == Self::spec_width(),
            forall|j: int|
                0 <= j < Self::spec_width() ==> (#[trigger] b.column_values@[j]).typ()
                    == Self::spec_col_type(j),
            forall|j: int|
                0 <= j < Self::spec_width() ==> (#[trigger] b.column_values@[j])@ == Seq::<
                    ColumnValue,
                >::empty(),
    ;

    /// Appends one row's elements to their respective columns,
    /// preserving row order.
    fn add_column(value: Self, columns: &mut RelationBuilder)
        requires
            old(columns).column_values@.len() == Self::spec_width(),
            forall|j: int|
                0 <= j < Self::spec_width() ==> (#[trigger] old(columns).column_values@[j]).typ()
                    == Self::spec_col_type(j),
        ensures
            final(columns).column_names == old(columns).column_names,
            final(columns).column_values@.len() == Self::spec_width(),
            forall|j: int|
                0 <= j < Self::spec_width() ==> (#[trigger] final(columns).column_values@[j]).typ()
                    == Self::spec_col_type(j),
            forall|j: int|
                0 <= j < Self::spec_width() ==> (#[trigger] final(columns).column_values@[j])@
                    == old(columns).column_values@[j]@.push(value.spec_element(j)),
    ;
}

impl<A1: ColumnItem, A2: ColumnItem> ToColumn for (A1, A2) {
    open spec fn spec_width() -> int {
        2
    }

    open spec fn spec_col_type(j: int) -> ColumnType {
        if j == 0 {
            A1::spec_column_type()
        } else {
            A2::spec_column_type()
        }
    }

    open spec fn spec_element(self, j: int) -> ColumnValue {
        if j == 0 {
            self.0.spec_wrap()
        } else {
            self.1.spec_wrap()
        }
    }

    fn width() -> (w: usize) {
        2
    }

    fn init_columns(columns: &Vec<String>) -> (b: RelationBuilder) {
        let c1 = A1::empty_container();
        let c2 = A2::empty_container();
        let mut column_values: Vec<RelationColumnContainer> = Vec::new();
        column_values.push(c1);
        column_values.push(c2);
        let mut column_names: Vec<String> = Vec::new();
        let mut i: usize = 0;
        while i < columns.len()
            invariant
                i <= columns@.len(),
                column_names@.len() == i,
                forall|k: int| 0 <= k < i ==> column_names@[k] == columns@[k],
            decreases columns@.len() - i,
        {
            column_names.push(columns[i].clone());
            i = i + 1;
        }
        proof {
            assert(column_names@ =~= columns@);
        }
        RelationBuilder { column_names, column_values }
    }

    fn add_column(value: (A1, A2), columns: &mut RelationBuilder) {
        let (v1, v2) = value;
        let mut c1 = columns.column_values.remove(0);
        A1::push_container(&mut c1, v1);
        columns.column_values.insert(0, c1);
        let mut c2 = columns.column_values.remove(1);
        A2::push_container(&mut c2, v2);
        columns.column_values.insert(1, c2);
        proof {
            assert(columns.column_values@.len() == 2);
            assert(columns.column_values@[0]@ == old(columns).column_values@[0]@.push(
                value.spec_element(0),
            ));
            assert(columns.column_values@[1]@ == old(columns).column_values@[1]@.push(
                value.spec_element(1),
            ));
        }
    }
}

} // verus!
