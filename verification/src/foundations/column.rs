//! Type-erased column storage and the lazily filtered cursor over it.

use vstd::prelude::*;

use super::control::LiftErr;
use super::result::ColumnType;
use super::result::RelationError;
use super::result::RelationResult;
use super::selection::RelationColumnSelection;
use super::selection::RelationColumnSelectionDyn;
use super::selection::spec_from_any;
use super::selection::spec_sel_contains;

verus! {

/// One dynamically typed element: the tagged union that stands in for a
/// type-erased value.
#[derive(Clone, Copy, PartialEq, Eq, Structural, Debug)]
pub enum ColumnValue {
    IntValue(i64),
    BoolValue(bool),
}

impl ColumnValue {
    /// The stored type's tag.
    pub open spec fn spec_typ(self) -> ColumnType {
        match self {
            ColumnValue::IntValue(_) => ColumnType::IntType,
            ColumnValue::BoolValue(_) => ColumnType::BoolType,
        }
    }

    pub fn typ(&self) -> (t: ColumnType)
        ensures
            t == self.spec_typ(),
    {
        match self {
            ColumnValue::IntValue(_) => ColumnType::IntType,
            ColumnValue::BoolValue(_) => ColumnType::BoolType,
        }
    }
}

/// Owned, homogeneous, type-erased storage for one column: one vector per
/// concrete element type, behind a single handle.
pub enum RelationColumnContainer {
    IntColumn { values: Vec<i64> },
    BoolColumn { values: Vec<bool> },
}

impl View for RelationColumnContainer {
    type V = Seq<ColumnValue>;

    /// The stored sequence, element by element, as tagged values.
    open spec fn view(&self) -> Seq<ColumnValue> {
        match *self {
            RelationColumnContainer::IntColumn { values } => values@.map(
                |i: int, v: i64| ColumnValue::IntValue(v),
            ),
            RelationColumnContainer::BoolColumn { values } => values@.map(
                |i: int, v: bool| ColumnValue::BoolValue(v),
            ),
        }
    }
}

impl RelationColumnContainer {
    /// The concrete element type this column was declared with.
    pub open spec fn typ(self) -> ColumnType {
        match self {
            RelationColumnContainer::IntColumn { .. } => ColumnType::IntType,
            RelationColumnContainer::BoolColumn { .. } => ColumnType::BoolType,
        }
    }

    pub fn column_type(&self) -> (t: ColumnType)
        ensures
            t == self.typ(),
    {
        match self {
            RelationColumnContainer::IntColumn { .. } => ColumnType::IntType,
            RelationColumnContainer::BoolColumn { .. } => ColumnType::BoolType,
        }
    }

    /// The row count of this column.
    pub fn length(&self) -> (n: usize)
        ensures
            n == self@.len(),
    {
        match self {
            RelationColumnContainer::IntColumn { values } => values.len(),
            RelationColumnContainer::BoolColumn { values } => values.len(),
        }
    }
}

/// A concrete element type that columns can store: conversion to and from
/// the tagged value, the total order the selection predicates compare by,
/// and typed access to the tagged storage.
pub trait ColumnItem: Sized + Copy {
    /// The tag of this element type.
    spec fn spec_column_type() -> ColumnType;

    /// This value as a tagged value.
    spec fn spec_wrap(self) -> ColumnValue;

    /// The typed value recovered from a tagged value, if the tag matches.
    spec fn spec_try_unwrap(v: ColumnValue) -> Option<Self>;

    /// The total order of this element type.
    spec fn spec_item_le(self, other: Self) -> bool;

    /// The typed sequence a container of this element type stores; empty
    /// for a container of another type.
    spec fn spec_container_values(c: RelationColumnContainer) -> Seq<Self>;

    /// Wrapping stamps this type's tag and is undone by unwrapping.
    proof fn lemma_wrap_type(x: Self)
        ensures
            x.spec_wrap().spec_typ() == Self::spec_column_type(),
            Self::spec_try_unwrap(x.spec_wrap()) == Some(x),
    ;

    /// Unwrapping succeeds exactly on this type's tag, and inverts wrap.
    proof fn lemma_unwrap_type(v: ColumnValue)
        ensures
            Self::spec_try_unwrap(v) is Some <==> v.spec_typ() == Self::spec_column_type(),
            Self::spec_try_unwrap(v) matches Some(x) ==> x.spec_wrap() == v,
    ;

    /// A matching container's erased view is its typed sequence, wrapped
    /// element by element.
    proof fn lemma_container_values(c: RelationColumnContainer)
        requires
            c.typ() == Self::spec_column_type(),
        ensures
            c@ == Self::spec_container_values(c).map(|i: int, x: Self| x.spec_wrap()),
    ;

    fn column_type() -> (t: ColumnType)
        ensures
            t == Self::spec_column_type(),
    ;

    fn wrap(self) -> (v: ColumnValue)
        ensures
            v == self.spec_wrap(),
    ;

    fn try_unwrap(v: ColumnValue) -> (r: Option<Self>)
        ensures
            r == Self::spec_try_unwrap(v),
    ;

    fn le(self, other: Self) -> (r: bool)
        ensures
            r == self.spec_item_le(other),
    ;

    fn try_container(c: &RelationColumnContainer) -> (r: Option<&Vec<Self>>)
        ensures
            match r {
                Some(values) => c.typ() == Self::spec_column_type() && values@
                    == Self::spec_container_values(*c),
                None => c.typ() != Self::spec_column_type(),
            },
    ;

    fn empty_container() -> (c: RelationColumnContainer)
        ensures
            c.typ() == Self::spec_column_type(),
            c@ == Seq::<ColumnValue>::empty(),
    ;

    fn push_container(c: &mut RelationColumnContainer, v: Self)
        requires
            old(c).typ() == Self::spec_column_type(),
        ensures
            final(c).typ() == Self::spec_column_type(),
            final(c)@ == old(c)@.push(v.spec_wrap()),
    ;
}

impl ColumnItem for i64 {
    open spec fn spec_column_type() -> ColumnType {
        ColumnType::IntType
    }

    open spec fn spec_wrap(self) -> ColumnValue {
        ColumnValue::IntValue(self)
    }

    open spec fn spec_try_unwrap(v: ColumnValue) -> Option<i64> {
        match v {
            ColumnValue::IntValue(x) => Some(x),
            _ => None,
        }
    }

    open spec fn spec_item_le(self, other: i64) -> bool {
        self <= other
    }

    open spec fn spec_container_values(c: RelationColumnContainer) -> Seq<i64> {
        match c {
            RelationColumnContainer::IntColumn { values } => values@,
            _ => Seq::empty(),
        }
    }

    proof fn lemma_wrap_type(x: i64) {
    }

    proof fn lemma_unwrap_type(v: ColumnValue) {
    }

    proof fn lemma_container_values(c: RelationColumnContainer) {
        assert(c@ =~= Self::spec_container_values(c).map(|i: int, x: i64| x.spec_wrap()));
    }

    fn column_type() -> (t: ColumnType) {
        ColumnType::IntType
    }

    fn wrap(self) -> (v: ColumnValue) {
        ColumnValue::IntValue(self)
    }

    fn try_unwrap(v: ColumnValue) -> (r: Option<i64>) {
        match v {
            ColumnValue::IntValue(x) => Some(x),
            _ => None,
        }
    }

    fn le(self, other: i64) -> (r: bool) {
        self <= other
    }

    fn try_container(c: &RelationColumnContainer) -> (r: Option<&Vec<i64>>) {
        match c {
            RelationColumnContainer::IntColumn { values } => Some(values),
            _ => None,
        }
    }

    fn empty_container() -> (c: RelationColumnContainer) {
        let c = RelationColumnContainer::IntColumn { values: Vec::new() };
        proof {
            assert(c@ =~= Seq::<ColumnValue>::empty());
        }
        c
    }

    fn push_container(c: &mut RelationColumnContainer, v: i64) {
        match c {
            RelationColumnContainer::IntColumn { values } => {
                values.push(v);
            },
            _ => {
                proof {
                    assert(false);
                }
            },
        }
        proof {
            assert(c@ =~= old(c)@.push(v.spec_wrap()));
        }
    }
}

impl ColumnItem for bool {
    open spec fn spec_column_type() -> ColumnType {
        ColumnType::BoolType
    }

    open spec fn spec_wrap(self) -> ColumnValue {
        ColumnValue::BoolValue(self)
    }

    open spec fn spec_try_unwrap(v: ColumnValue) -> Option<bool> {
        match v {
            ColumnValue::BoolValue(x) => Some(x),
            _ => None,
        }
    }

    open spec fn spec_item_le(self, other: bool) -> bool {
        self ==> other
    }

    open spec fn spec_container_values(c: RelationColumnContainer) -> Seq<bool> {
        match c {
            RelationColumnContainer::BoolColumn { values } => values@,
            _ => Seq::empty(),
        }
    }

    proof fn lemma_wrap_type(x: bool) {
    }

    proof fn lemma_unwrap_type(v: ColumnValue) {
    }

    proof fn lemma_container_values(c: RelationColumnContainer) {
        assert(c@ =~= Self::spec_container_values(c).map(|i: int, x: bool| x.spec_wrap()));
    }

    fn column_type() -> (t: ColumnType) {
        ColumnType::BoolType
    }

    fn wrap(self) -> (v: ColumnValue) {
        ColumnValue::BoolValue(self)
    }

    fn try_unwrap(v: ColumnValue) -> (r: Option<bool>) {
        match v {
            ColumnValue::BoolValue(x) => Some(x),
            _ => None,
        }
    }

    fn le(self, other: bool) -> (r: bool) {
        !self || other
    }

    fn try_container(c: &RelationColumnContainer) -> (r: Option<&Vec<bool>>) {
        match c {
            RelationColumnContainer::BoolColumn { values } => Some(values),
            _ => None,
        }
    }

    fn empty_container() -> (c: RelationColumnContainer) {
        let c = RelationColumnContainer::BoolColumn { values: Vec::new() };
        proof {
            assert(c@ =~= Seq::<ColumnValue>::empty());
        }
        c
    }

    fn push_container(c: &mut RelationColumnContainer, v: bool) {
        match c {
            RelationColumnContainer::BoolColumn { values } => {
                values.push(v);
            },
            _ => {
                proof {
                    assert(false);
                }
            },
        }
        proof {
            assert(c@ =~= old(c)@.push(v.spec_wrap()));
        }
    }
}

/// The subsequence of `s` admitted by `sel`, in storage order.
pub open spec fn spec_filter_values<TItem: ColumnItem>(
    s: Seq<TItem>,
    sel: RelationColumnSelection<TItem>,
) -> Seq<TItem>
    decreases s.len(),
{
    if s.len() <= 0 {
        Seq::empty()
    } else {
        let rest = spec_filter_values(s.drop_last(), sel);
        if spec_sel_contains(sel, s.last()) {
            rest.push(s.last())
        } else {
            rest
        }
    }
}

/// Extending the scanned prefix by one element extends its filtered
/// subsequence exactly when the element passes the selection.
pub proof fn lemma_filter_take_succ<TItem: ColumnItem>(
    s: Seq<TItem>,
    sel: RelationColumnSelection<TItem>,
    i: int,
)
    requires
        0 <= i < s.len(),
    ensures
        spec_filter_values(s.take(i + 1), sel) == if spec_sel_contains(sel, s[i]) {
            spec_filter_values(s.take(i), sel).push(s[i])
        } else {
            spec_filter_values(s.take(i), sel)
        },
{
    assert(s.take(i + 1).drop_last() =~= s.take(i));
    assert(s.take(i + 1).last() == s[i]);
}

/// The filtered prefix is a prefix of the whole filtered sequence.
pub proof fn lemma_emitted_prefix<TItem: ColumnItem>(
    s: Seq<TItem>,
    sel: RelationColumnSelection<TItem>,
    i: int,
)
    requires
        0 <= i <= s.len(),
    ensures
        spec_filter_values(s.take(i), sel).len() <= spec_filter_values(s, sel).len(),
        spec_filter_values(s.take(i), sel) == spec_filter_values(s, sel).take(
            spec_filter_values(s.take(i), sel).len() as int,
        ),
    decreases s.len() - i,
{
    if i == s.len() {
        assert(s.take(i) =~= s);
        assert(spec_filter_values(s, sel).take(spec_filter_values(s, sel).len() as int)
            =~= spec_filter_values(s, sel));
    } else {
        lemma_emitted_prefix(s, sel, i + 1);
        lemma_filter_take_succ(s, sel, i);
        let fi = spec_filter_values(s.take(i), sel);
        let fi1 = spec_filter_values(s.take(i + 1), sel);
        let all = spec_filter_values(s, sel);
        if spec_sel_contains(sel, s[i]) {
            assert(fi1 == fi.push(s[i]));
            assert(fi1 == all.take(fi1.len() as int));
            assert(fi =~= all.take(fi.len() as int));
        } else {
            assert(fi1 == fi);
        }
    }
}

/// With no filter, the cursor passes the whole column through.
pub proof fn lemma_filter_all_items<TItem: ColumnItem>(s: Seq<TItem>)
    ensures
        spec_filter_values(s, RelationColumnSelection::AllItems) == s,
    decreases s.len(),
{
    if s.len() > 0 {
        lemma_filter_all_items::<TItem>(s.drop_last());
        assert(spec_filter_values(s, RelationColumnSelection::<TItem>::AllItems)
            =~= s);
    } else {
        assert(spec_filter_values(s, RelationColumnSelection::<TItem>::AllItems) =~= s);
    }
}

/// A transient, borrowed, lazily filtered cursor over one column's
/// storage: forward-only and not rewindable.
pub struct RelationColumnIter<'a, TItem> {
    values: &'a Vec<TItem>,
    selection: RelationColumnSelection<TItem>,
    index: usize,
}

impl<'a, TItem: ColumnItem> RelationColumnIter<'a, TItem> {
    /// The borrowed column contents.
    pub closed spec fn spec_values(self) -> Seq<TItem> {
        self.values@
    }

    /// The recovered, concretely typed selection.
    pub closed spec fn spec_selection(self) -> RelationColumnSelection<TItem> {
        self.selection
    }

    /// The next storage position the cursor will examine.
    pub closed spec fn spec_index(self) -> int {
        self.index as int
    }

    pub open spec fn wf(self) -> bool {
        0 <= self.spec_index() <= self.spec_values().len()
    }

    /// Everything this cursor will ever yield, in storage order.
    pub open spec fn spec_filtered(self) -> Seq<TItem> {
        spec_filter_values(self.spec_values(), self.spec_selection())
    }

    /// What the cursor has yielded so far.
    pub open spec fn spec_emitted(self) -> Seq<TItem> {
        spec_filter_values(self.spec_values().take(self.spec_index()), self.spec_selection())
    }

    /// Yields the next element satisfying the selection, in storage
    /// order, or nothing once the storage is exhausted.
    pub fn next(&mut self) -> (r: Option<TItem>)
        requires
            old(self).wf(),
        ensures
            final(self).wf(),
            final(self).spec_values() == old(self).spec_values(),
            final(self).spec_selection() == old(self).spec_selection(),
            final(self).spec_index() >= old(self).spec_index(),
            match r {
                Some(v) => final(self).spec_emitted() == old(self).spec_emitted().push(v)
                    && final(self).spec_index() > old(self).spec_index(),
                None => final(self).spec_emitted() == old(self).spec_emitted()
                    && final(self).spec_emitted() == final(self).spec_filtered()
                    && final(self).spec_index() == final(self).spec_values().len(),
            },
    {
        while self.index < self.values.len()
            invariant
                self.wf(),
                self.values == old(self).values,
                self.selection == old(self).selection,
                self.index >= old(self).index,
                self.spec_emitted() == old(self).spec_emitted(),
            decreases self.values@.len() - self.index,
        {
            let v = self.values[self.index];
            proof {
                lemma_filter_take_succ(self.values@, self.selection, self.index as int);
            }
            self.index = self.index + 1;
            if self.selection.contains(&v) {
                return Some(v);
            }
        }
        proof {
            assert(self.values@.take(self.values@.len() as int) =~= self.values@);
        }
        None
    }
}

/// The outcome of binding one column's storage and a type-erased
/// selection to a concrete element type: the typed contents and typed
/// selection on success, the first validation error otherwise.
pub open spec fn spec_iter_as<TItem: ColumnItem>(
    column: String,
    data: RelationColumnContainer,
    bounds: RelationColumnSelectionDyn,
) -> RelationResult<(Seq<TItem>, RelationColumnSelection<TItem>)> {
    if data.typ() != TItem::spec_column_type() {
        Err(
            RelationError::IncorrectColumnType {
                column,
                expected: TItem::spec_column_type(),
                actual: data.typ(),
            },
        )
    } else {
        match spec_from_any::<TItem>(bounds) {
            Ok(sel) => Ok((TItem::spec_container_values(data), sel)),
            Err(e) => Err(e),
        }
    }
}

/// A type-erased borrowed handle onto one column's storage.
pub enum RelationColumnDataRef<'a> {
    VecRef { vec_ref: &'a RelationColumnContainer },
}

impl<'a> RelationColumnDataRef<'a> {
    /// The storage behind the handle.
    pub open spec fn spec_data(self) -> RelationColumnContainer {
        match self {
            RelationColumnDataRef::VecRef { vec_ref } => *vec_ref,
        }
    }

    fn iter_vec<TItem: ColumnItem>(
        column: &String,
        bounds: &RelationColumnSelectionDyn,
        data: &'a RelationColumnContainer,
    ) -> (r: RelationResult<RelationColumnIter<'a, TItem>>)
        ensures
            match r {
                Ok(it) => spec_iter_as::<TItem>(*column, *data, *bounds) == Ok::<
                    _,
                    RelationError,
                >((it.spec_values(), it.spec_selection())) && it.spec_index() == 0,
                Err(e) => spec_iter_as::<TItem>(*column, *data, *bounds) == Result::<
                    (Seq<TItem>, RelationColumnSelection<TItem>),
                    RelationError,
                >::Err(e),
            },
    {
        let container = match TItem::try_container(data) {
            Some(values) => Ok(values),
            None => Err(
                RelationError::incorrect_column_type(
                    column.clone(),
                    TItem::column_type(),
                    data.column_type(),
                ),
            ),
        };
        let selection = bounds.from_any::<TItem>();
        match (container, selection).lift_err() {
            Ok((values, sel)) => Ok(RelationColumnIter { values, selection: sel, index: 0 }),
            Err(e) => Err(e),
        }
    }

    /// Binds the handle to a concrete element type, validating the stored
    /// type first and the selection's bound types second.
    pub fn iter_as<TItem: ColumnItem>(&self, column: &String, bounds: &RelationColumnSelectionDyn)
        -> (r: RelationResult<RelationColumnIter<'a, TItem>>)
        ensures
            match r {
                Ok(it) => spec_iter_as::<TItem>(*column, self.spec_data(), *bounds) == Ok::<
                    _,
                    RelationError,
                >((it.spec_values(), it.spec_selection())) && it.spec_index() == 0,
                Err(e) => spec_iter_as::<TItem>(*column, self.spec_data(), *bounds) == Result::<
                    (Seq<TItem>, RelationColumnSelection<TItem>),
                    RelationError,
                >::Err(e),
            },
    {
        match self {
            RelationColumnDataRef::VecRef { vec_ref } => RelationColumnDataRef::iter_vec(
                column,
                bounds,
                *vec_ref,
            ),
        }
    }
}

/// A transient borrowed range over one column: its name, its storage, and
/// the selection to apply. Element type recovery happens at `iter_as`.
pub struct RelationColumnLinearRange<'a> {
    pub column_name: &'a String,
    column_values: RelationColumnDataRef<'a>,
    range: RelationColumnSelectionDyn,
}

impl<'a> RelationColumnLinearRange<'a> {
    /// The name of the column this range reads.
    pub closed spec fn spec_name(self) -> String {
        *self.column_name
    }

    /// The storage this range reads.
    pub closed spec fn spec_data(self) -> RelationColumnContainer {
        self.column_values.spec_data()
    }

    /// The selection this range applies; a missing selection means all
    /// items.
    pub closed spec fn spec_range(self) -> RelationColumnSelectionDyn {
        self.range
    }

    pub fn from_vector_ref(
        column: &'a String,
        vector_ref: &'a RelationColumnContainer,
        range: Option<RelationColumnSelectionDyn>,
    ) -> (r: RelationColumnLinearRange<'a>)
        ensures
            r.spec_name() == *column,
            r.spec_data() == *vector_ref,
            r.spec_range() == match range {
                Some(sel) => sel,
                None => RelationColumnSelection::<ColumnValue>::AllItems,
            },
    {
        RelationColumnLinearRange {
            column_name: column,
            column_values: RelationColumnDataRef::VecRef { vec_ref: vector_ref },
            range: match range {
                Some(sel) => sel,
                None => RelationColumnSelection::AllItems,
            },
        }
    }

    /// Binds this range to a concrete element type, validating eagerly.
    pub fn iter_as<TItem: ColumnItem>(&self) -> (r: RelationResult<RelationColumnIter<'a, TItem>>)
        ensures
            match r {
                Ok(it) => spec_iter_as::<TItem>(self.spec_name(), self.spec_data(), self.spec_range())
                    == Ok::<_, RelationError>((it.spec_values(), it.spec_selection()))
                    && it.spec_index() == 0,
                Err(e) => spec_iter_as::<TItem>(self.spec_name(), self.spec_data(), self.spec_range())
                    == Result::<(Seq<TItem>, RelationColumnSelection<TItem>), RelationError>::Err(e),
            },
    {
        self.column_values.iter_as::<TItem>(self.column_name, &self.range)
    }
}

} // verus!
