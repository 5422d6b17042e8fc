//! The relation itself: a mapping from column name to type-erased column
//! storage, immutable after construction.

use vstd::prelude::*;

use crate::foundations::SelectResult;
use crate::foundations::dispatch;
use crate::foundations::dispatch_one;
use crate::foundations::spec_min;
use crate::foundations::column::ColumnItem;
use crate::foundations::column::RelationColumnContainer;
use crate::foundations::column::RelationColumnIter;
use crate::foundations::column::RelationColumnLinearRange;
use crate::foundations::column::lemma_filter_all_items;
use crate::foundations::column::spec_iter_as;
use crate::foundations::result::RelationError;
use crate::foundations::result::RelationResult;
use crate::foundations::selection::RelationColumnSelection;
use crate::foundations::selection::RelationColumnSelectionDyn;
use crate::support::lemma_find_column_props;
use crate::support::spec_columns_even;
use crate::support::spec_find_column;
use crate::support::spec_keys_distinct;

verus! {

/// The selection a cursor applies when a request leaves it out.
pub open spec fn spec_range_of(range: Option<RelationColumnSelectionDyn>)
    -> RelationColumnSelectionDyn {
    match range {
        Some(sel) => sel,
        None => RelationColumnSelection::AllItems,
    }
}

/// The stored values of a successful single-column binding; empty on an
/// error, where no caller reads it.
pub open spec fn spec_ok_seq<A1: ColumnItem>(r: RelationResult<Seq<A1>>) -> Seq<A1> {
    match r {
        Ok(s) => s,
        Err(_) => Seq::empty(),
    }
}

/// The first column of a successful two-column binding.
pub open spec fn spec_ok_first<A1: ColumnItem, A2: ColumnItem>(
    r: RelationResult<(Seq<A1>, Seq<A2>)>,
) -> Seq<A1> {
    match r {
        Ok(p) => p.0,
        Err(_) => Seq::empty(),
    }
}

/// The second column of a successful two-column binding.
pub open spec fn spec_ok_second<A1: ColumnItem, A2: ColumnItem>(
    r: RelationResult<(Seq<A1>, Seq<A2>)>,
) -> Seq<A2> {
    match r {
        Ok(p) => p.1,
        Err(_) => Seq::empty(),
    }
}

/// A relation held in memory: named, equal-length, type-erased columns
/// in declared order, with unique names.
pub struct StaticRelation {
    pub columns: Vec<(String, RelationColumnContainer)>,
}

impl StaticRelation {
    /// The number of rows, which every column shares.
    pub open spec fn spec_row_count(self) -> nat {
        if self.columns@.len() == 0 {
            0
        } else {
            self.columns@[0].1@.len()
        }
    }

    /// The relation's invariant: unique column names, and every column
    /// of identical length.
    pub open spec fn wf(self) -> bool {
        spec_keys_distinct(self.columns@) && spec_columns_even(
            self.columns@,
            self.spec_row_count() as int,
        )
    }

    /// Whether a column of that name is present.
    pub open spec fn has_column(self, name: Seq<char>) -> bool {
        spec_find_column(self.columns@, name) >= 0
    }

    /// The storage of the named column.
    pub open spec fn spec_column_at(self, name: Seq<char>) -> RelationColumnContainer {
        self.columns@[spec_find_column(self.columns@, name)].1
    }

    /// The stored key of the named column.
    pub open spec fn spec_key_at(self, name: Seq<char>) -> String {
        self.columns@[spec_find_column(self.columns@, name)].0
    }

    /// The outcome of binding the named column and a selection to a
    /// concrete element type: typed contents and typed selection, or the
    /// first validation error in unknown-column, column-type,
    /// bounds-type order.
    pub open spec fn spec_cursor<TItem: ColumnItem>(
        self,
        column: String,
        sel: RelationColumnSelectionDyn,
    ) -> RelationResult<(Seq<TItem>, RelationColumnSelection<TItem>)> {
        if !self.has_column(column@) {
            Err(RelationError::UnknownColumn { column })
        } else {
            spec_iter_as::<TItem>(self.spec_key_at(column@), self.spec_column_at(column@), sel)
        }
    }

    /// The typed contents of the named column with no filter.
    pub open spec fn spec_cursor_all<TItem: ColumnItem>(self, column: String) -> RelationResult<
        Seq<TItem>,
    > {
        match self.spec_cursor::<TItem>(column, RelationColumnSelection::AllItems) {
            Ok(p) => Ok(p.0),
            Err(e) => Err(e),
        }
    }

    /// The outcome of a single-column select: the arity check first,
    /// then the column's validation.
    pub open spec fn spec_select_one<A1: ColumnItem>(self, cols: Seq<String>) -> RelationResult<
        Seq<A1>,
    > {
        if cols.len() != 1 {
            Err(RelationError::IncorrectColumnCount { expected: 1usize, actual: cols.len() as usize })
        } else {
            self.spec_cursor_all::<A1>(cols[0])
        }
    }

    /// The outcome of a two-column select: the arity check first, then
    /// each column's validation in declared order.
    pub open spec fn spec_select<A1: ColumnItem, A2: ColumnItem>(
        self,
        cols: Seq<String>,
    ) -> RelationResult<(Seq<A1>, Seq<A2>)> {
        if cols.len() != 2 {
            Err(RelationError::IncorrectColumnCount { expected: 2usize, actual: cols.len() as usize })
        } else {
            match self.spec_cursor_all::<A1>(cols[0]) {
                Err(e) => Err(e),
                Ok(s1) => match self.spec_cursor_all::<A2>(cols[1]) {
                    Err(e) => Err(e),
                    Ok(s2) => Ok((s1, s2)),
                },
            }
        }
    }

    /// The row count, read off any column.
    pub fn row_count(&self) -> (n: usize)
        ensures
            n == self.spec_row_count(),
    {
        if self.columns.len() == 0 {
            0
        } else {
            self.columns[0].1.length()
        }
    }

    /// The column names, in declared order.
    pub fn column_names(&self) -> (r: Vec<String>)
        ensures
            r@.len() == self.columns@.len(),
            forall|i: int| 0 <= i < r@.len() ==> r@[i] == (#[trigger] self.columns@[i]).0,
    {
        let mut names: Vec<String> = Vec::new();
        let mut i: usize = 0;
        while i < self.columns.len()
            invariant
                i <= self.columns@.len(),
                names@.len() == i,
                forall|k: int| 0 <= k < i ==> names@[k] == (#[trigger] self.columns@[k]).0,
            decreases self.columns@.len() - i,
        {
            names.push(self.columns[i].0.clone());
            i = i + 1;
        }
        names
    }

    /// The first position holding the named column, if any.
    fn find(&self, column: &String) -> (r: Option<usize>)
        ensures
            match r {
                Some(i) => self.has_column(column@) && i < self.columns@.len() && i
                    == spec_find_column(self.columns@, column@),
                None => !self.has_column(column@),
            },
    {
        proof {
            lemma_find_column_props(self.columns@, column@);
        }
        let mut i: usize = 0;
        while i < self.columns.len()
            invariant
                i <= self.columns@.len(),
                forall|k: int| 0 <= k < i ==> (#[trigger] self.columns@[k]).0@ != column@,
            decreases self.columns@.len() - i,
        {
            if self.columns[i].0 == *column {
                proof {
                    assert(self.columns@[i as int].0@ == column@);
                    lemma_find_column_props(self.columns@, column@);
                    assert(spec_find_column(self.columns@, column@) == i);
                }
                return Some(i);
            }
            i = i + 1;
        }
        proof {
            lemma_find_column_props(self.columns@, column@);
        }
        None
    }

    /// Looks the named column up and pairs its storage with the given
    /// selection, as a borrowed range; an absent name is rejected here.
    pub fn iter_selection<'t>(
        &'t self,
        column: &String,
        range: Option<RelationColumnSelectionDyn>,
    ) -> (r: RelationResult<RelationColumnLinearRange<'t>>)
        ensures
            match r {
                Ok(lr) => self.has_column(column@) && lr.spec_name() == self.spec_key_at(column@)
                    && lr.spec_data() == self.spec_column_at(column@) && lr.spec_range()
                    == spec_range_of(range),
                Err(e) => !self.has_column(column@) && e == (RelationError::UnknownColumn {
                    column: *column,
                }),
            },
    {
        match self.find(column) {
            Some(i) => {
                let pair = &self.columns[i];
                Ok(RelationColumnLinearRange::from_vector_ref(&pair.0, &pair.1, range))
            },
            None => RelationError::raise_unknown_column(column),
        }
    }

    /// Creates an eagerly validated cursor over the named column at a
    /// concrete element type: the name, the stored type, and the
    /// selection's bound types are all checked here, not during pulls.
    pub fn cursor<'t, TItem: ColumnItem>(
        &'t self,
        column: &String,
        range: Option<RelationColumnSelectionDyn>,
    ) -> (r: RelationResult<RelationColumnIter<'t, TItem>>)
        ensures
            match r {
                Ok(it) => self.spec_cursor::<TItem>(*column, spec_range_of(range)) == Ok::<
                    _,
                    RelationError,
                >((it.spec_values(), it.spec_selection())) && it.spec_index() == 0,
                Err(e) => self.spec_cursor::<TItem>(*column, spec_range_of(range)) == Result::<
                    (Seq<TItem>, RelationColumnSelection<TItem>),
                    RelationError,
                >::Err(e),
            },
    {
        match self.iter_selection(column, range) {
            Ok(lr) => lr.iter_as::<TItem>(),
            Err(e) => Err(e),
        }
    }

    /// Projects one column through `select`, with no filter: one call
    /// per stored value, in original order, results in call order. The
    /// arity check comes first; a failing column short-circuits with its
    /// validation error and no partial results.
    pub fn try_select_one<A1: ColumnItem, TResult, F: Fn(A1) -> TResult>(
        &self,
        columns: &Vec<String>,
        select: F,
    ) -> (r: RelationResult<SelectResult<TResult>>)
        requires
            self.wf(),
            forall|i: int|
                0 <= i < spec_ok_seq(self.spec_select_one::<A1>(columns@)).len() ==> call_requires(
                    select,
                    (spec_ok_seq(self.spec_select_one::<A1>(columns@))[i],),
                ),
        ensures
            match r {
                Ok(res) => {
                    let s1 = spec_ok_seq(self.spec_select_one::<A1>(columns@));
                    &&& self.spec_select_one::<A1>(columns@) is Ok
                    &&& res.values@.len() == s1.len()
                    &&& res.values@.len() == self.spec_row_count()
                    &&& forall|i: int|
                        0 <= i < res.values@.len() ==> call_ensures(
                            select,
                            (s1[i],),
                            #[trigger] res.values@[i],
                        )
                },
                Err(e) => self.spec_select_one::<A1>(columns@) == Result::<
                    Seq<A1>,
                    RelationError,
                >::Err(e),
            },
    {
        if columns.len() != 1 {
            return RelationError::raise_incorrect_column_count(1, columns.len());
        }
        let mut it1 = match self.cursor::<A1>(&columns[0], None) {
            Ok(it) => it,
            Err(e) => {
                return Err(e);
            },
        };
        proof {
            lemma_filter_all_items::<A1>(it1.spec_values());
            self.lemma_column_row_count::<A1>(columns@[0]);
            assert(spec_ok_seq(self.spec_select_one::<A1>(columns@)) == it1.spec_filtered());
            assert forall|i: int|
                0 <= i < it1.spec_filtered().len() implies call_requires(
                select,
                (it1.spec_filtered()[i],),
            ) by {
                assert(it1.spec_filtered()[i] == spec_ok_seq(
                    self.spec_select_one::<A1>(columns@),
                )[i]);
            };
        }
        let ghost s1 = it1.spec_filtered();
        let values = dispatch_one(&mut it1, &select);
        proof {
            assert forall|i: int|
                0 <= i < values@.len() implies call_ensures(
                select,
                (spec_ok_seq(self.spec_select_one::<A1>(columns@))[i],),
                #[trigger] values@[i],
            ) by {
                assert(call_ensures(select, (s1[i],), values@[i]));
                assert(s1[i] == spec_ok_seq(self.spec_select_one::<A1>(columns@))[i]);
            };
        }
        Ok(SelectResult { values })
    }

    /// Projects two columns through `select`, with no filter: the
    /// columns are zipped positionally by storage order and `select` is
    /// called once per pair, in increasing order. The arity check comes
    /// first; a failing column short-circuits, in declared order, with
    /// its validation error and no partial results.
    pub fn try_select<A1: ColumnItem, A2: ColumnItem, TResult, F: Fn(A1, A2) -> TResult>(
        &self,
        columns: &Vec<String>,
        select: F,
    ) -> (r: RelationResult<SelectResult<TResult>>)
        requires
            self.wf(),
            forall|i: int|
                0 <= i < spec_ok_first(self.spec_select::<A1, A2>(columns@)).len() && i
                    < spec_ok_second(self.spec_select::<A1, A2>(columns@)).len() ==> call_requires(
                    select,
                    (
                        spec_ok_first(self.spec_select::<A1, A2>(columns@))[i],
                        spec_ok_second(self.spec_select::<A1, A2>(columns@))[i],
                    ),
                ),
        ensures
            match r {
                Ok(res) => {
                    let s1 = spec_ok_first(self.spec_select::<A1, A2>(columns@));
                    let s2 = spec_ok_second(self.spec_select::<A1, A2>(columns@));
                    &&& self.spec_select::<A1, A2>(columns@) is Ok
                    &&& res.values@.len() == spec_min(s1.len() as int, s2.len() as int)
                    &&& res.values@.len() == self.spec_row_count()
                    &&& forall|i: int|
                        0 <= i < res.values@.len() ==> call_ensures(
                            select,
                            (s1[i], s2[i]),
                            #[trigger] res.values@[i],
                        )
                },
                Err(e) => self.spec_select::<A1, A2>(columns@) == Result::<
                    (Seq<A1>, Seq<A2>),
                    RelationError,
                >::Err(e),
            },
    {
        if columns.len() != 2 {
            return RelationError::raise_incorrect_column_count(2, columns.len());
        }
        let mut it1 = match self.cursor::<A1>(&columns[0], None) {
            Ok(it) => it,
            Err(e) => {
                return Err(e);
            },
        };
        let mut it2 = match self.cursor::<A2>(&columns[1], None) {
            Ok(it) => it,
            Err(e) => {
                return Err(e);
            },
        };
        proof {
            lemma_filter_all_items::<A1>(it1.spec_values());
            lemma_filter_all_items::<A2>(it2.spec_values());
            self.lemma_column_row_count::<A1>(columns@[0]);
            self.lemma_column_row_count::<A2>(columns@[1]);
            assert(spec_ok_first(self.spec_select::<A1, A2>(columns@)) == it1.spec_filtered());
            assert(spec_ok_second(self.spec_select::<A1, A2>(columns@)) == it2.spec_filtered());
            assert forall|i: int|
                0 <= i < it1.spec_filtered().len() && i < it2.spec_filtered().len()
                    implies call_requires(
                select,
                (it1.spec_filtered()[i], it2.spec_filtered()[i]),
            ) by {
                assert(it1.spec_filtered()[i] == spec_ok_first(
                    self.spec_select::<A1, A2>(columns@),
                )[i]);
                assert(it2.spec_filtered()[i] == spec_ok_second(
                    self.spec_select::<A1, A2>(columns@),
                )[i]);
            };
        }
        let ghost s1 = it1.spec_filtered();
        let ghost s2 = it2.spec_filtered();
        let values = dispatch(&mut it1, &mut it2, &select);
        proof {
            assert forall|i: int|
                0 <= i < values@.len() implies call_ensures(
                select,
                (
                    spec_ok_first(self.spec_select::<A1, A2>(columns@))[i],
                    spec_ok_second(self.spec_select::<A1, A2>(columns@))[i],
                ),
                #[trigger] values@[i],
            ) by {
                assert(call_ensures(select, (s1[i], s2[i]), values@[i]));
            };
        }
        Ok(SelectResult { values })
    }

    /// In a well-formed relation, a column that binds at a concrete
    /// element type holds exactly one typed value per row.
    pub proof fn lemma_column_row_count<TItem: ColumnItem>(self, column: String)
        requires
            self.wf(),
            self.has_column(column@),
            self.spec_column_at(column@).typ() == TItem::spec_column_type(),
        ensures
            TItem::spec_container_values(self.spec_column_at(column@)).len()
                == self.spec_row_count(),
    {
        lemma_find_column_props(self.columns@, column@);
        let j = spec_find_column(self.columns@, column@);
        assert(self.columns@[j].1@.len() == self.spec_row_count());
        TItem::lemma_container_values(self.spec_column_at(column@));
    }
}

/// Round trip: a successful single-column select with no filter works
/// over exactly the named column's stored values, in original order; the
/// column's erased storage is that sequence, wrapped value by value.
pub proof fn lemma_select_one_round_trip<A1: ColumnItem>(
    rel: StaticRelation,
    cols: Seq<String>,
    s1: Seq<A1>,
)
    requires
        rel.spec_select_one::<A1>(cols) == Result::<Seq<A1>, RelationError>::Ok(s1),
    ensures
        cols.len() == 1,
        rel.has_column(cols[0]@),
        s1 == A1::spec_container_values(rel.spec_column_at(cols[0]@)),
        rel.spec_column_at(cols[0]@)@ == s1.map(|i: int, x: A1| x.spec_wrap()),
        forall|i: int|
            0 <= i < s1.len() ==> A1::spec_try_unwrap(#[trigger] rel.spec_column_at(cols[0]@)@[i])
                == Some(s1[i]),
{
    A1::lemma_container_values(rel.spec_column_at(cols[0]@));
    assert forall|i: int|
        0 <= i < s1.len() implies A1::spec_try_unwrap(
        #[trigger] rel.spec_column_at(cols[0]@)@[i],
    ) == Some(s1[i]) by {
        assert(rel.spec_column_at(cols[0]@)@[i] == s1[i].spec_wrap());
        A1::lemma_wrap_type(s1[i]);
    };
}

} // verus!
