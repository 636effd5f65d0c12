//! Runtime model of the emitted operations: a single table's rows,
//! keyed by an integer identifier, and the exact effect each emitted
//! statement has on them. The generated operations execute against a
//! live database; this model states what they do, and the laws proved
//! here hold of every store and every valid table model.

use vstd::prelude::*;

use crate::table::{spec_insertable_idx, Table, TableField, TableV};

verus! {

/// Runtime failures of executed operations. None of them is retried
/// internally; all are propagated to the caller.
#[derive(Debug, Clone, Copy, PartialEq, Eq, Structural)]
pub enum DbError {
    /// The underlying connection failed; propagated, not recovered.
    ConnectionFailure,
    /// Zero rows were affected or returned where exactly one was
    /// required; distinct from a connection error.
    RowNotFound,
    /// A row could not be materialized into the declared entity shape.
    DecodeFailure,
}

/// A column value, as the model stores it.
#[derive(Debug, PartialEq, Eq)]
pub enum Value {
    Null,
    Int(i64),
    Text(String),
    Flag(bool),
}

/// Mathematical model of a column value.
pub ghost enum ValueV {
    Null,
    Int(int),
    Text(Seq<char>),
    Flag(bool),
}

impl View for Value {
    type V = ValueV;

    open spec fn view(&self) -> ValueV {
        match self {
            Value::Null => ValueV::Null,
            Value::Int(v) => ValueV::Int(*v as int),
            Value::Text(s) => ValueV::Text(s@),
            Value::Flag(f) => ValueV::Flag(*f),
        }
    }
}

impl DeepView for Value {
    type V = ValueV;

    open spec fn deep_view(&self) -> ValueV {
        self.view()
    }
}

impl Clone for Value {
    fn clone(&self) -> (r: Self)
        ensures
            r@ == self@,
    {
        match self {
            Value::Null => Value::Null,
            Value::Int(v) => Value::Int(*v),
            Value::Text(s) => Value::Text(s.clone()),
            Value::Flag(f) => Value::Flag(*f),
        }
    }
}

/// Copies a row value for value.
pub fn clone_row(v: &Vec<Value>) -> (r: Vec<Value>)
    ensures
        r.deep_view() == v.deep_view(),
{
    let n = v.len();
    let mut r: Vec<Value> = Vec::new();
    let mut i: usize = 0;
    while i < n
        invariant
            i <= n,
            n == v@.len(),
            r@.len() == i,
            forall|j: int| 0 <= j < i ==> (#[trigger] r@[j])@ == v@[j]@,
        decreases n - i,
    {
        r.push(v[i].clone());
        i = i + 1;
    }
    proof {
        assert(r.deep_view() =~= v.deep_view());
    }
    r
}

/// Mathematical model of the store: rows in insertion order, each
/// paired with its identifier, and the table's server-side default
/// values, one per column.
#[verifier::ext_equal]
pub ghost struct RowStoreV {
    pub ids: Seq<int>,
    pub rows: Seq<Seq<ValueV>>,
    pub defaults: Seq<ValueV>,
}

/// One table's rows. Every emitted operation's runtime effect is
/// modeled against this.
pub struct RowStore {
    ids: Vec<i64>,
    rows: Vec<Vec<Value>>,
    defaults: Vec<Value>,
}

impl View for RowStore {
    type V = RowStoreV;

    closed spec fn view(&self) -> RowStoreV {
        RowStoreV {
            ids: self.ids@.map_values(|v: i64| v as int),
            rows: self.rows.deep_view(),
            defaults: self.defaults.deep_view(),
        }
    }
}

/// Index of the first row keyed `id`, if any.
pub open spec fn spec_find(ids: Seq<int>, id: int) -> Option<int>
    decreases ids.len(),
{
    if ids.len() == 0 {
        None
    } else if ids[0] == id {
        Some(0)
    } else {
        match spec_find(ids.drop_first(), id) {
            Some(i) => Some(i + 1),
            None => None,
        }
    }
}

/// The row keyed `id`, if any.
pub open spec fn spec_get(s: RowStoreV, id: int) -> Option<Seq<ValueV>> {
    match spec_find(s.ids, id) {
        Some(i) => Some(s.rows[i]),
        None => None,
    }
}

/// Well-formedness of a store against a table model: as many rows as
/// identifiers, every row as wide as the table, every row's identifier
/// column holding its key, keys unique, and one default per column.
pub open spec fn store_wf(s: RowStoreV, t: TableV) -> bool {
    &&& s.ids.len() == s.rows.len()
    &&& (forall|i: int| 0 <= i < s.rows.len() ==> (#[trigger] s.rows[i]).len() == t.fields.len())
    &&& (forall|i: int|
        0 <= i < s.rows.len() ==> (#[trigger] s.rows[i])[t.id] == ValueV::Int(s.ids[i]))
    &&& (forall|i: int, j: int| 0 <= i < j < s.ids.len() ==> s.ids[i] != s.ids[j])
    &&& s.defaults.len() == t.fields.len()
}

/// A well-formed entity row: as wide as the table, its identifier
/// column an integer.
pub open spec fn row_wf(row: Seq<ValueV>, t: TableV) -> bool {
    &&& row.len() == t.fields.len()
    &&& row[t.id] is Int
}

proof fn lemma_find_at(ids: Seq<int>, id: int, i: int)
    requires
        0 <= i < ids.len(),
        forall|j: int| 0 <= j < i ==> ids[j] != id,
        ids[i] == id,
    ensures
        spec_find(ids, id) == Some(i),
    decreases i,
{
    if i > 0 {
        lemma_find_at(ids.drop_first(), id, i - 1);
    }
}

proof fn lemma_find_none(ids: Seq<int>, id: int)
    requires
        forall|j: int| 0 <= j < ids.len() ==> ids[j] != id,
    ensures
        spec_find(ids, id) is None,
    decreases ids.len(),
{
    if ids.len() > 0 {
        lemma_find_none(ids.drop_first(), id);
    }
}

/// A found index is in range and keys the row it names.
pub proof fn lemma_find_index(ids: Seq<int>, id: int)
    ensures
        spec_find(ids, id) matches Some(i) ==> 0 <= i < ids.len() && ids[i] == id,
    decreases ids.len(),
{
    if ids.len() > 0 {
        lemma_find_index(ids.drop_first(), id);
    }
}

/// Appending a fresh key makes it findable, at the end.
pub proof fn lemma_find_push(ids: Seq<int>, id: int)
    requires
        spec_find(ids, id) is None,
    ensures
        spec_find(ids.push(id), id) == Some(ids.len() as int),
    decreases ids.len(),
{
    if ids.len() == 0 {
        assert(ids.push(id)[0] == id);
    } else {
        assert(ids.push(id)[0] == ids[0]);
        assert(ids.push(id).drop_first() =~= ids.drop_first().push(id));
        lemma_find_push(ids.drop_first(), id);
    }
}

impl RowStore {
    /// An empty store for a table whose server-side defaults are
    /// `defaults`, one value per column.
    pub fn new(defaults: Vec<Value>) -> (r: RowStore)
        ensures
            r@.ids == Seq::<int>::empty(),
            r@.rows == Seq::<Seq<ValueV>>::empty(),
            r@.defaults == defaults.deep_view(),
    {
        let r = RowStore { ids: Vec::new(), rows: Vec::new(), defaults };
        proof {
            assert(r@.ids =~= Seq::<int>::empty());
            assert(r@.rows =~= Seq::<Seq<ValueV>>::empty());
        }
        r
    }

    /// Finds the position of the row keyed `id`.
    fn find(&self, id: i64) -> (r: Option<usize>)
        ensures
            (match r {
                Some(i) => Some(i as int),
                None => None,
            }) == spec_find(self@.ids, id as int),
            r matches Some(i) ==> i < self@.ids.len() && i < self.ids@.len(),
    {
        let n = self.ids.len();
        let mut i: usize = 0;
        while i < n
            invariant
                i <= n,
                n == self.ids@.len(),
                self@.ids == self.ids@.map_values(|v: i64| v as int),
                forall|j: int| 0 <= j < i ==> self@.ids[j] != id as int,
            decreases n - i,
        {
            if self.ids[i] == id {
                proof {
                    lemma_find_at(self@.ids, id as int, i as int);
                }
                return Some(i);
            }
            proof {
                assert(self@.ids[i as int] == self.ids@[i as int] as int);
            }
            i = i + 1;
        }
        proof {
            lemma_find_none(self@.ids, id as int);
        }
        None
    }

    /// The executed fetch-by-id: the row keyed `id`, or `RowNotFound`
    /// when the table holds no such row.
    pub fn exec_get(&self, t: &Table, id: i64) -> (r: Result<Vec<Value>, DbError>)
        requires
            store_wf(self@, t@),
        ensures
            r matches Ok(row) ==> spec_get(self@, id as int) == Some(row.deep_view()),
            r is Err <==> spec_get(self@, id as int) is None,
            r matches Err(e) ==> e == DbError::RowNotFound,
    {
        match self.find(id) {
            Some(i) => {
                proof {
                    assert(self@.rows.len() == self.rows@.len());
                    assert(self@.rows[i as int] == self.rows@[i as int].deep_view());
                }
                Ok(clone_row(&self.rows[i]))
            },
            None => Err(DbError::RowNotFound),
        }
    }

    /// The executed fetch-all: every row, in insertion order. Each call
    /// walks the table independently of any other.
    pub fn exec_all(&self) -> (r: Vec<Vec<Value>>)
        ensures
            r.deep_view() == self@.rows,
    {
        let n = self.rows.len();
        let mut r: Vec<Vec<Value>> = Vec::new();
        let mut i: usize = 0;
        while i < n
            invariant
                i <= n,
                n == self.rows@.len(),
                r@.len() == i,
                forall|j: int| 0 <= j < i ==> (#[trigger] r@[j]).deep_view() == self@.rows[j],
            decreases n - i,
        {
            proof {
                assert(self@.rows[i as int] == self.rows@[i as int].deep_view());
            }
            r.push(clone_row(&self.rows[i]));
            i = i + 1;
        }
        proof {
            assert(r.deep_view() =~= self@.rows);
        }
        r
    }

    /// The executed paginated fetch: at most `limit` rows starting at
    /// `offset`, in insertion order.
    pub fn exec_paginated(&self, offset: usize, limit: usize) -> (r: Vec<Vec<Value>>)
        ensures
            r.deep_view() == self@.rows.skip(
                if offset as int <= self@.rows.len() {
                    offset as int
                } else {
                    self@.rows.len() as int
                },
            ).take(
                if limit as int <= self@.rows.len() - offset as int {
                    limit as int
                } else if self@.rows.len() - offset as int >= 0 {
                    self@.rows.len() - offset as int
                } else {
                    0
                },
            ),
    {
        let n = self.rows.len();
        let start = if offset < n {
            offset
        } else {
            n
        };
        let end = if limit < n - start {
            start + limit
        } else {
            n
        };
        let mut r: Vec<Vec<Value>> = Vec::new();
        let mut i: usize = start;
        while i < end
            invariant
                start <= i <= end <= n,
                n == self.rows@.len(),
                r@.len() == i - start,
                forall|j: int|
                    0 <= j < i - start ==> (#[trigger] r@[j]).deep_view() == self@.rows[start + j],
            decreases end - i,
        {
            proof {
                assert(self@.rows[i as int] == self.rows@[i as int].deep_view());
            }
            r.push(clone_row(&self.rows[i]));
            i = i + 1;
        }
        proof {
            assert(r.deep_view() =~= self@.rows.skip(
                if offset as int <= self@.rows.len() {
                    offset as int
                } else {
                    self@.rows.len() as int
                },
            ).take(
                if limit as int <= self@.rows.len() - offset as int {
                    limit as int
                } else if self@.rows.len() - offset as int >= 0 {
                    self@.rows.len() - offset as int
                } else {
                    0
                },
            ));
        }
        r
    }

    /// The executed delete: removes the row keyed `id`, and reports
    /// `RowNotFound` when zero rows were affected — never a silent
    /// success. On that error the row set is left unchanged.
    pub fn exec_delete(&mut self, t: &Table, id: i64) -> (r: Result<(), DbError>)
        requires
            store_wf(old(self)@, t@),
        ensures
            store_wf(final(self)@, t@),
            r is Ok <==> spec_find(old(self)@.ids, id as int) is Some,
            r matches Err(e) ==> e == DbError::RowNotFound && *final(self) == *old(self),
            (match spec_find(old(self)@.ids, id as int) {
                Some(i) => final(self)@.ids == old(self)@.ids.remove(i) && final(self)@.rows == old(
                    self,
                )@.rows.remove(i),
                None => final(self)@ == old(self)@,
            }),
            final(self)@.defaults == old(self)@.defaults,
    {
        match self.find(id) {
            Some(i) => {
                proof {
                    lemma_find_index(self@.ids, id as int);
                    assert(self@.rows.len() == self.rows@.len());
                }
                self.ids.remove(i);
                self.rows.remove(i);
                proof {
                    let ghost k = i as int;
                    let ghost olds = old(self)@;
                    assert(self@.ids =~= olds.ids.remove(k));
                    assert(self@.rows =~= olds.rows.remove(k));
                    assert(store_wf(self@, t@)) by {
                        let s2 = self@;
                        assert forall|p: int| 0 <= p < s2.rows.len() implies (#[trigger] s2.rows[p]).len()
                            == t@.fields.len() && s2.rows[p][t@.id] == ValueV::Int(s2.ids[p]) by {
                            if p < k {
                                assert(s2.rows[p] == olds.rows[p]);
                                assert(s2.ids[p] == olds.ids[p]);
                            } else {
                                assert(s2.rows[p] == olds.rows[p + 1]);
                                assert(s2.ids[p] == olds.ids[p + 1]);
                            }
                        }
                        assert forall|p: int, q: int| 0 <= p < q < s2.ids.len() implies s2.ids[p]
                            != s2.ids[q] by {
                            let p0 = if p < k { p } else { p + 1 };
                            let q0 = if q < k { q } else { q + 1 };
                            assert(s2.ids[p] == olds.ids[p0]);
                            assert(s2.ids[q] == olds.ids[q0]);
                        }
                    }
                }
                Ok(())
            },
            None => Err(DbError::RowNotFound),
        }
    }
}

/// The integer a value holds; zero for non-integers.
pub open spec fn val_int(v: ValueV) -> int {
    match v {
        ValueV::Int(x) => x,
        _ => 0,
    }
}

/// A row with the values at `cols` replaced by `vals`, position by
/// position, and every other column untouched.
pub open spec fn spec_apply_cols(row: Seq<ValueV>, cols: Seq<usize>, vals: Seq<ValueV>) -> Seq<
    ValueV,
>
    decreases cols.len(),
{
    if cols.len() == 0 || vals.len() == 0 {
        row
    } else {
        spec_apply_cols(row, cols.drop_last(), vals.drop_last()).update(
            cols.last() as int,
            vals.last(),
        )
    }
}

/// Applying a patch touches exactly the patched columns: each declared
/// column takes its declared value, every other column keeps its prior
/// value, and the row keeps its width.
pub proof fn lemma_patch_touches_exactly(row: Seq<ValueV>, cols: Seq<usize>, vals: Seq<ValueV>)
    requires
        cols.len() == vals.len(),
        forall|k: int| 0 <= k < cols.len() ==> (#[trigger] cols[k]) < row.len(),
        forall|k1: int, k2: int| 0 <= k1 < k2 < cols.len() ==> cols[k1] != cols[k2],
    ensures
        spec_apply_cols(row, cols, vals).len() == row.len(),
        forall|k: int|
            0 <= k < cols.len() ==> spec_apply_cols(row, cols, vals)[(#[trigger] cols[k]) as int]
                == vals[k],
        forall|c: int|
            0 <= c < row.len() && (forall|k: int| 0 <= k < cols.len() ==> (#[trigger] cols[k])
                as int != c) ==> spec_apply_cols(row, cols, vals)[c] == row[c],
    decreases cols.len(),
{
    if cols.len() > 0 {
        lemma_patch_touches_exactly(row, cols.drop_last(), vals.drop_last());
        let prev = spec_apply_cols(row, cols.drop_last(), vals.drop_last());
        let cur = spec_apply_cols(row, cols, vals);
        assert(cur == prev.update(cols.last() as int, vals.last()));
        assert forall|k: int| 0 <= k < cols.len() implies cur[(#[trigger] cols[k]) as int]
            == vals[k] by {
            if k < cols.len() - 1 {
                assert(cols.drop_last()[k] == cols[k]);
                assert(cols[k] != cols[cols.len() - 1]);
                assert(prev[cols[k] as int] == vals.drop_last()[k]);
            }
        }
        assert forall|c: int|
            0 <= c < row.len() && (forall|k: int| 0 <= k < cols.len() ==> (#[trigger] cols[k])
                as int != c) implies cur[c] == row[c] by {
            assert forall|k: int| 0 <= k < cols.drop_last().len() implies (
            #[trigger] cols.drop_last()[k]) as int != c by {
                assert(cols.drop_last()[k] == cols[k]);
            }
            assert(cols[cols.len() - 1] as int != c);
        }
    }
}

/// Merges patched values into an in-memory entity, in place.
pub fn apply_to(entity: &mut Vec<Value>, cols: &Vec<usize>, vals: &Vec<Value>)
    requires
        cols@.len() == vals@.len(),
        forall|k: int| 0 <= k < cols@.len() ==> (#[trigger] cols@[k]) < old(entity)@.len(),
    ensures
        final(entity).deep_view() == spec_apply_cols(
            old(entity).deep_view(),
            cols@,
            vals.deep_view(),
        ),
        final(entity)@.len() == old(entity)@.len(),
{
    let n = cols.len();
    let mut k: usize = 0;
    while k < n
        invariant
            k <= n,
            n == cols@.len(),
            n == vals@.len(),
            forall|j: int| 0 <= j < n ==> (#[trigger] cols@[j]) < entity@.len(),
            entity@.len() == old(entity)@.len(),
            entity.deep_view() == spec_apply_cols(
                old(entity).deep_view(),
                cols@.take(k as int),
                vals.deep_view().take(k as int),
            ),
        decreases n - k,
    {
        entity.set(cols[k], vals[k].clone());
        proof {
            assert(cols@.take(k + 1).drop_last() =~= cols@.take(k as int));
            assert(vals.deep_view().take(k + 1).drop_last() =~= vals.deep_view().take(k as int));
            assert(cols@.take(k + 1).last() == cols@[k as int]);
            assert(vals.deep_view().take(k + 1).last() == vals@[k as int]@);
            assert(entity.deep_view() =~= spec_apply_cols(
                old(entity).deep_view(),
                cols@.take(k + 1),
                vals.deep_view().take(k + 1),
            ));
        }
        k = k + 1;
    }
    proof {
        assert(cols@.take(n as int) =~= cols@);
        assert(vals.deep_view().take(n as int) =~= vals.deep_view());
    }
}

/// Decides what becomes of the in-memory entity after a persist
/// attempt: the merge is applied exactly when the persisted write
/// succeeded; a failed patch leaves the entity representing the last
/// known-persisted state. Returns the persist outcome unchanged.
pub fn apply_patch_outcome(
    entity: &mut Vec<Value>,
    cols: &Vec<usize>,
    vals: &Vec<Value>,
    persist: Result<(), DbError>,
) -> (r: Result<(), DbError>)
    requires
        cols@.len() == vals@.len(),
        forall|k: int| 0 <= k < cols@.len() ==> (#[trigger] cols@[k]) < old(entity)@.len(),
    ensures
        r is Ok <==> persist is Ok,
        r matches Err(e) ==> persist == Err::<(), DbError>(e),
        persist is Ok ==> final(entity).deep_view() == spec_apply_cols(
            old(entity).deep_view(),
            cols@,
            vals.deep_view(),
        ),
        persist is Err ==> *final(entity) == *old(entity),
{
    match persist {
        Ok(()) => {
            apply_to(entity, cols, vals);
            Ok(())
        },
        Err(e) => Err(e),
    }
}

/// Decides what becomes of the in-memory field after a setter's
/// persist attempt: assigned exactly when the write succeeded, left
/// untouched otherwise. Returns the persist outcome unchanged.
pub fn apply_set_outcome(
    entity: &mut Vec<Value>,
    col: usize,
    v: Value,
    persist: Result<(), DbError>,
) -> (r: Result<(), DbError>)
    requires
        col < old(entity)@.len(),
    ensures
        r is Ok <==> persist is Ok,
        r matches Err(e) ==> persist == Err::<(), DbError>(e),
        persist is Ok ==> final(entity).deep_view() == old(entity).deep_view().update(
            col as int,
            v@,
        ),
        persist is Err ==> *final(entity) == *old(entity),
{
    match persist {
        Ok(()) => {
            entity.set(col, v);
            proof {
                assert(entity.deep_view() =~= old(entity).deep_view().update(col as int, v@));
            }
            Ok(())
        },
        Err(e) => Err(e),
    }
}

impl RowStore {
    /// The executed single-column update: sets one column of the row
    /// keyed `id`, scoped to the identifier. Affecting zero rows is not
    /// an error here; the statement simply did nothing.
    ///
    /// The model keys every row by its identifier column, so a write
    /// that changes the key itself is outside it; the emitters place no
    /// such restriction on the statements they produce.
    pub fn exec_update_column(&mut self, t: &Table, id: i64, col: usize, v: &Value) -> (r: Result<
        (),
        DbError,
    >)
        requires
            t@.wf(),
            store_wf(old(self)@, t@),
            col < t@.fields.len(),
            col != t@.id,
        ensures
            store_wf(final(self)@, t@),
            r is Ok,
            final(self)@.ids == old(self)@.ids,
            final(self)@.defaults == old(self)@.defaults,
            (match spec_find(old(self)@.ids, id as int) {
                Some(i) => final(self)@.rows == old(self)@.rows.update(
                    i,
                    old(self)@.rows[i].update(col as int, v@),
                ),
                None => final(self)@.rows == old(self)@.rows,
            }),
    {
        match self.find(id) {
            Some(i) => {
                proof {
                    lemma_find_index(self@.ids, id as int);
                    assert(self@.rows.len() == self.rows@.len());
                    assert(self@.rows[i as int] == self.rows@[i as int].deep_view());
                }
                let mut row = clone_row(&self.rows[i]);
                row.set(col, v.clone());
                proof {
                    assert(row.deep_view() =~= old(self)@.rows[i as int].update(col as int, v@));
                }
                self.rows.set(i, row);
                proof {
                    let ghost k = i as int;
                    let ghost olds = old(self)@;
                    assert(self@.ids =~= olds.ids);
                    assert(self@.defaults =~= olds.defaults);
                    assert(self@.rows =~= olds.rows.update(k, olds.rows[k].update(col as int, v@)));
                    assert(store_wf(self@, t@)) by {
                        let s2 = self@;
                        assert forall|p: int| 0 <= p < s2.rows.len() implies (#[trigger] s2.rows[p]).len()
                            == t@.fields.len() && s2.rows[p][t@.id] == ValueV::Int(s2.ids[p]) by {
                            if p != k {
                                assert(s2.rows[p] == olds.rows[p]);
                            } else {
                                assert(s2.rows[p] == olds.rows[k].update(col as int, v@));
                            }
                        }
                    }
                }
                Ok(())
            },
            None => {
                proof {
                    assert(self@.rows =~= old(self)@.rows);
                }
                Ok(())
            },
        }
    }

    /// The executed full update: replaces the row keyed by the entity's
    /// own identifier with the entity's values, every non-identifier
    /// column in declaration order. Affecting zero rows is not an
    /// error.
    pub fn exec_update_row(&mut self, t: &Table, entity: &Vec<Value>) -> (r: Result<(), DbError>)
        requires
            t@.wf(),
            store_wf(old(self)@, t@),
            row_wf(entity.deep_view(), t@),
        ensures
            store_wf(final(self)@, t@),
            r is Ok,
            final(self)@.ids == old(self)@.ids,
            final(self)@.defaults == old(self)@.defaults,
            (match spec_find(old(self)@.ids, val_int(entity.deep_view()[t@.id])) {
                Some(i) => final(self)@.rows == old(self)@.rows.update(i, entity.deep_view()),
                None => final(self)@.rows == old(self)@.rows,
            }),
    {
        proof {
            assert(entity.deep_view()[t@.id] == entity@[t.id as int]@);
        }
        let id: i64 = match &entity[t.id] {
            Value::Int(v) => *v,
            _ => {
                proof {
                    assert(false);
                }
                0
            },
        };
        match self.find(id) {
            Some(i) => {
                proof {
                    lemma_find_index(self@.ids, id as int);
                    assert(self@.rows.len() == self.rows@.len());
                }
                self.rows.set(i, clone_row(entity));
                proof {
                    let ghost k = i as int;
                    let ghost olds = old(self)@;
                    assert(self@.ids =~= olds.ids);
                    assert(self@.defaults =~= olds.defaults);
                    assert(self@.rows =~= olds.rows.update(k, entity.deep_view()));
                    assert(store_wf(self@, t@)) by {
                        let s2 = self@;
                        assert forall|p: int| 0 <= p < s2.rows.len() implies (#[trigger] s2.rows[p]).len()
                            == t@.fields.len() && s2.rows[p][t@.id] == ValueV::Int(s2.ids[p]) by {
                            if p != k {
                                assert(s2.rows[p] == olds.rows[p]);
                            } else {
                                assert(s2.rows[p] == entity.deep_view());
                            }
                        }
                    }
                }
                Ok(())
            },
            None => {
                proof {
                    assert(self@.rows =~= old(self)@.rows);
                }
                Ok(())
            },
        }
    }

    /// The executed partial update: sets exactly the patched columns of
    /// the row keyed `id`, leaving every other column of that row, and
    /// every other row, at its prior value. Affecting zero rows is not
    /// an error.
    pub fn exec_patch_row(&mut self, t: &Table, id: i64, cols: &Vec<usize>, vals: &Vec<Value>) -> (
    r: Result<(), DbError>)
        requires
            t@.wf(),
            store_wf(old(self)@, t@),
            cols@.len() == vals@.len(),
            forall|k: int|
                0 <= k < cols@.len() ==> (#[trigger] cols@[k]) < t@.fields.len() && cols@[k]
                    != t@.id,
        ensures
            store_wf(final(self)@, t@),
            r is Ok,
            final(self)@.ids == old(self)@.ids,
            final(self)@.defaults == old(self)@.defaults,
            (match spec_find(old(self)@.ids, id as int) {
                Some(i) => final(self)@.rows == old(self)@.rows.update(
                    i,
                    spec_apply_cols(old(self)@.rows[i], cols@, vals.deep_view()),
                ),
                None => final(self)@.rows == old(self)@.rows,
            }),
    {
        match self.find(id) {
            Some(i) => {
                proof {
                    lemma_find_index(self@.ids, id as int);
                    assert(self@.rows.len() == self.rows@.len());
                    assert(self@.rows[i as int] == self.rows@[i as int].deep_view());
                }
                let mut row = clone_row(&self.rows[i]);
                apply_to(&mut row, cols, vals);
                self.rows.set(i, row);
                proof {
                    let ghost k = i as int;
                    let ghost olds = old(self)@;
                    let ghost patched = spec_apply_cols(olds.rows[k], cols@, vals.deep_view());
                    lemma_patch_touches_exactly_len(olds.rows[k], cols@, vals.deep_view());
                    assert(self@.ids =~= olds.ids);
                    assert(self@.defaults =~= olds.defaults);
                    assert(self@.rows =~= olds.rows.update(k, patched));
                    assert(store_wf(self@, t@)) by {
                        let s2 = self@;
                        lemma_patch_keeps_others(olds.rows[k], cols@, vals.deep_view(), t@.id);
                        assert forall|p: int| 0 <= p < s2.rows.len() implies (#[trigger] s2.rows[p]).len()
                            == t@.fields.len() && s2.rows[p][t@.id] == ValueV::Int(s2.ids[p]) by {
                            if p != k {
                                assert(s2.rows[p] == olds.rows[p]);
                            } else {
                                assert(s2.rows[p] == patched);
                            }
                        }
                    }
                }
                Ok(())
            },
            None => {
                proof {
                    assert(self@.rows =~= old(self)@.rows);
                }
                Ok(())
            },
        }
    }
}

/// A patch never changes the row's width.
pub proof fn lemma_patch_touches_exactly_len(row: Seq<ValueV>, cols: Seq<usize>, vals: Seq<ValueV>)
    requires
        forall|k: int| 0 <= k < cols.len() ==> (#[trigger] cols[k]) < row.len(),
    ensures
        spec_apply_cols(row, cols, vals).len() == row.len(),
    decreases cols.len(),
{
    if cols.len() > 0 && vals.len() > 0 {
        assert forall|k: int| 0 <= k < cols.drop_last().len() implies (
        #[trigger] cols.drop_last()[k]) < row.len() by {
            assert(cols.drop_last()[k] == cols[k]);
        }
        lemma_patch_touches_exactly_len(row, cols.drop_last(), vals.drop_last());
    }
}

/// A column outside the patched set keeps its value.
pub proof fn lemma_patch_keeps_others(row: Seq<ValueV>, cols: Seq<usize>, vals: Seq<ValueV>, c: int)
    requires
        forall|k: int| 0 <= k < cols.len() ==> (#[trigger] cols[k]) < row.len(),
        forall|k: int| 0 <= k < cols.len() ==> (#[trigger] cols[k]) as int != c,
    ensures
        0 <= c < row.len() ==> spec_apply_cols(row, cols, vals)[c] == row[c],
    decreases cols.len(),
{
    if cols.len() > 0 && vals.len() > 0 {
        assert forall|k: int| 0 <= k < cols.drop_last().len() implies (
        #[trigger] cols.drop_last()[k]) as int != c && (#[trigger] cols.drop_last()[k])
            < row.len() by {
            assert(cols.drop_last()[k] == cols[k]);
        }
        lemma_patch_keeps_others(row, cols.drop_last(), vals.drop_last(), c);
        lemma_patch_touches_exactly_len(row, cols.drop_last(), vals.drop_last());
        assert(cols[cols.len() - 1] as int != c);
    }
}

/// The greatest key in the store; zero when it is empty.
pub open spec fn spec_max_id(ids: Seq<int>) -> int
    decreases ids.len(),
{
    if ids.len() == 0 {
        0
    } else if ids.last() > spec_max_id(ids.drop_last()) {
        ids.last()
    } else {
        spec_max_id(ids.drop_last())
    }
}

/// The identifier the database generates for the next inserted row.
pub open spec fn spec_fresh_id(s: RowStoreV) -> int {
    spec_max_id(s.ids) + 1
}

/// Position of column `c` among the caller-supplied values.
pub open spec fn spec_insert_pos(fs: Seq<crate::table::FieldV>, c: int) -> int {
    spec_insertable_idx(fs.take(c)).len() as int
}

/// The row an insert stores and returns: the identifier column holds
/// the obtained identifier, database-generated columns hold the
/// server's defaults, and every other column holds the caller's value
/// for it, in declaration order.
pub open spec fn spec_compose_row(
    t: TableV,
    supplied: Seq<ValueV>,
    defaults: Seq<ValueV>,
    nid: int,
) -> Seq<ValueV> {
    Seq::new(
        t.fields.len(),
        |c: int|
            if c == t.id {
                ValueV::Int(nid)
            } else if t.fields[c].default {
                defaults[c]
            } else {
                supplied[spec_insert_pos(t.fields, c)]
            },
    )
}

/// The identifier an insert obtains: generated when the identifier
/// column is database-generated, the caller's value otherwise.
pub open spec fn spec_new_id(s: RowStoreV, t: TableV, supplied: Seq<ValueV>) -> int {
    if t.fields[t.id].default {
        spec_fresh_id(s)
    } else {
        val_int(supplied[spec_insert_pos(t.fields, t.id)])
    }
}

proof fn lemma_max_ge(ids: Seq<int>)
    ensures
        spec_max_id(ids) >= 0,
        forall|j: int| 0 <= j < ids.len() ==> ids[j] <= spec_max_id(ids),
    decreases ids.len(),
{
    if ids.len() > 0 {
        lemma_max_ge(ids.drop_last());
        assert forall|j: int| 0 <= j < ids.len() implies ids[j] <= spec_max_id(ids) by {
            if j < ids.len() - 1 {
                assert(ids[j] == ids.drop_last()[j]);
            }
        }
    }
}

proof fn lemma_find_none_conv(ids: Seq<int>, id: int)
    requires
        spec_find(ids, id) is None,
    ensures
        forall|j: int| 0 <= j < ids.len() ==> ids[j] != id,
    decreases ids.len(),
{
    if ids.len() > 0 {
        lemma_find_none_conv(ids.drop_first(), id);
        assert forall|j: int| 0 <= j < ids.len() implies ids[j] != id by {
            if j > 0 {
                assert(ids[j] == ids.drop_first()[j - 1]);
            }
        }
    }
}

proof fn lemma_insertable_take_len(fs: Seq<crate::table::FieldV>, c: int)
    requires
        0 <= c <= fs.len(),
    ensures
        spec_insertable_idx(fs.take(c)).len() <= spec_insertable_idx(fs).len(),
    decreases fs.len(),
{
    if c == fs.len() {
        assert(fs.take(c) =~= fs);
    } else {
        assert(fs.drop_last().take(c) =~= fs.take(c));
        lemma_insertable_take_len(fs.drop_last(), c);
    }
}

proof fn lemma_default_idx_prefix(fs: Seq<crate::table::FieldV>, c: int)
    requires
        0 <= c <= fs.len(),
    ensures
        crate::table::spec_default_idx(fs.take(c)).len() <= crate::table::spec_default_idx(
            fs,
        ).len(),
        crate::table::spec_default_idx(fs.take(c)) == crate::table::spec_default_idx(fs).take(
            crate::table::spec_default_idx(fs.take(c)).len() as int,
        ),
    decreases fs.len(),
{
    if c == fs.len() {
        assert(fs.take(c) =~= fs);
        assert(crate::table::spec_default_idx(fs).take(
            crate::table::spec_default_idx(fs).len() as int,
        ) =~= crate::table::spec_default_idx(fs));
    } else {
        assert(fs.drop_last().take(c) =~= fs.take(c));
        lemma_default_idx_prefix(fs.drop_last(), c);
        let a = crate::table::spec_default_idx(fs.drop_last());
        let l = crate::table::spec_default_idx(fs.take(c)).len() as int;
        assert(crate::table::spec_default_idx(fs).take(l) =~= a.take(l));
    }
}

proof fn lemma_default_except_idx_prefix(fs: Seq<crate::table::FieldV>, skip: int, c: int)
    requires
        0 <= c <= fs.len(),
    ensures
        crate::table::spec_default_except_idx(fs.take(c), skip).len()
            <= crate::table::spec_default_except_idx(fs, skip).len(),
        crate::table::spec_default_except_idx(fs.take(c), skip)
            == crate::table::spec_default_except_idx(fs, skip).take(
            crate::table::spec_default_except_idx(fs.take(c), skip).len() as int,
        ),
    decreases fs.len(),
{
    if c == fs.len() {
        assert(fs.take(c) =~= fs);
        assert(crate::table::spec_default_except_idx(fs, skip).take(
            crate::table::spec_default_except_idx(fs, skip).len() as int,
        ) =~= crate::table::spec_default_except_idx(fs, skip));
    } else {
        assert(fs.drop_last().take(c) =~= fs.take(c));
        lemma_default_except_idx_prefix(fs.drop_last(), skip, c);
        let a = crate::table::spec_default_except_idx(fs.drop_last(), skip);
        let l = crate::table::spec_default_except_idx(fs.take(c), skip).len() as int;
        assert(crate::table::spec_default_except_idx(fs, skip).take(l) =~= a.take(l));
    }
}

/// Position of column `c` among the caller-supplied insert values:
/// the number of insertable columns declared before it.
fn insertable_pos(t: &Table, c: usize) -> (r: usize)
    requires
        t@.wf(),
        c <= t@.fields.len(),
    ensures
        r as int == spec_insert_pos(t@.fields, c as int),
        r <= c,
{
    let mut pos: usize = 0;
    let mut p: usize = 0;
    proof {
        assert(t@.fields.take(0) =~= Seq::<crate::table::FieldV>::empty());
    }
    while p < c
        invariant
            p <= c,
            c <= t@.fields.len(),
            t@.fields == t.fields@.map_values(|f: TableField| f@),
            t.fields@.len() == t@.fields.len(),
            pos <= p,
            pos as int == spec_insertable_idx(t@.fields.take(p as int)).len(),
        decreases c - p,
    {
        proof {
            assert(t@.fields.take(p + 1).drop_last() =~= t@.fields.take(p as int));
            assert(t@.fields.take(p + 1).last() == t@.fields[p as int]);
            assert(t@.fields[p as int] == t.fields@[p as int]@);
        }
        if !t.fields[p].default {
            pos = pos + 1;
        }
        p = p + 1;
    }
    pos
}

/// Builds the row an insert stores and returns.
fn compose_row(t: &Table, supplied: &Vec<Value>, defaults: &Vec<Value>, nid: i64) -> (r: Vec<
    Value,
>)
    requires
        t@.wf(),
        supplied.deep_view().len() == spec_insertable_idx(t@.fields).len(),
        defaults.deep_view().len() == t@.fields.len(),
    ensures
        r.deep_view() == spec_compose_row(t@, supplied.deep_view(), defaults.deep_view(), nid as int),
{
    let n = t.fields.len();
    let mut r: Vec<Value> = Vec::new();
    let mut pos: usize = 0;
    let mut c: usize = 0;
    proof {
        assert(t@.fields.take(0) =~= Seq::<crate::table::FieldV>::empty());
        assert(t.fields@.len() == t@.fields.len());
    }
    while c < n
        invariant
            c <= n,
            n == t.fields@.len(),
            n == t@.fields.len(),
            t@.wf(),
            t@.fields == t.fields@.map_values(|f: TableField| f@),
            supplied@.len() == spec_insertable_idx(t@.fields).len(),
            defaults@.len() == t@.fields.len(),
            pos as int == spec_insertable_idx(t@.fields.take(c as int)).len(),
            pos <= c,
            r@.len() == c,
            forall|j: int|
                0 <= j < c ==> (#[trigger] r@[j])@ == spec_compose_row(
                    t@,
                    supplied.deep_view(),
                    defaults.deep_view(),
                    nid as int,
                )[j],
        decreases n - c,
    {
        proof {
            assert(t@.fields.take(c + 1).drop_last() =~= t@.fields.take(c as int));
            assert(t@.fields.take(c + 1).last() == t@.fields[c as int]);
            assert(t@.fields[c as int] == t.fields@[c as int]@);
            lemma_insertable_take_len(t@.fields, c + 1);
        }
        let v: Value = if c == t.id {
            Value::Int(nid)
        } else if t.fields[c].default {
            defaults[c].clone()
        } else {
            proof {
                assert(spec_insertable_idx(t@.fields.take(c + 1)).len() == pos + 1);
            }
            supplied[pos].clone()
        };
        proof {
            assert(v@ == spec_compose_row(
                t@,
                supplied.deep_view(),
                defaults.deep_view(),
                nid as int,
            )[c as int]);
        }
        r.push(v);
        if !t.fields[c].default {
            pos = pos + 1;
        }
        c = c + 1;
    }
    proof {
        assert(r.deep_view() =~= spec_compose_row(
            t@,
            supplied.deep_view(),
            defaults.deep_view(),
            nid as int,
        ));
    }
    r
}

impl RowStore {
    /// The next identifier the store generates.
    fn fresh_id(&self) -> (r: i64)
        requires
            forall|i: int| 0 <= i < self@.ids.len() ==> (#[trigger] self@.ids[i]) < i64::MAX,
        ensures
            r as int == spec_fresh_id(self@),
            spec_find(self@.ids, r as int) is None,
    {
        let n = self.ids.len();
        let mut m: i64 = 0;
        let mut i: usize = 0;
        proof {
            assert(self@.ids.take(0) =~= Seq::<int>::empty());
        }
        while i < n
            invariant
                i <= n,
                n == self.ids@.len(),
                self@.ids == self.ids@.map_values(|v: i64| v as int),
                forall|j: int| 0 <= j < self@.ids.len() ==> (#[trigger] self@.ids[j]) < i64::MAX,
                m as int == spec_max_id(self@.ids.take(i as int)),
                m < i64::MAX,
                m >= 0,
            decreases n - i,
        {
            proof {
                assert(self@.ids.take(i + 1).drop_last() =~= self@.ids.take(i as int));
                assert(self@.ids.take(i + 1).last() == self@.ids[i as int]);
                assert(self@.ids[i as int] == self.ids@[i as int] as int);
            }
            if self.ids[i] > m {
                m = self.ids[i];
            }
            i = i + 1;
        }
        proof {
            assert(self@.ids.take(n as int) =~= self@.ids);
            lemma_max_ge(self@.ids);
            assert forall|j: int| 0 <= j < self@.ids.len() implies self@.ids[j] != m + 1 by {
                assert(self@.ids[j] <= spec_max_id(self@.ids));
            }
            lemma_find_none(self@.ids, m as int + 1);
        }
        m + 1
    }

    /// The executed insert: stores the composed row under the obtained
    /// identifier — generated by the database when the identifier
    /// column is default-generated, supplied by the caller otherwise —
    /// and hands the identifier back.
    ///
    /// The model covers the successful execution: a caller-supplied
    /// identifier must be fresh, where a live run of the same statement
    /// would surface the duplicate key as an execution failure.
    pub fn exec_insert(&mut self, t: &Table, supplied: &Vec<Value>) -> (nid: i64)
        requires
            t@.wf(),
            store_wf(old(self)@, t@),
            supplied.deep_view().len() == spec_insertable_idx(t@.fields).len(),
            forall|i: int|
                0 <= i < old(self)@.ids.len() ==> (#[trigger] old(self)@.ids[i]) < i64::MAX,
            !t@.fields[t@.id].default ==> supplied.deep_view()[spec_insert_pos(
                t@.fields,
                t@.id,
            )] is Int && spec_find(
                old(self)@.ids,
                val_int(supplied.deep_view()[spec_insert_pos(t@.fields, t@.id)]),
            ) is None,
        ensures
            store_wf(final(self)@, t@),
            nid as int == spec_new_id(old(self)@, t@, supplied.deep_view()),
            spec_find(old(self)@.ids, nid as int) is None,
            final(self)@.ids == old(self)@.ids.push(nid as int),
            final(self)@.rows == old(self)@.rows.push(
                spec_compose_row(t@, supplied.deep_view(), old(self)@.defaults, nid as int),
            ),
            final(self)@.defaults == old(self)@.defaults,
    {
        proof {
            assert(t.fields@.len() == t@.fields.len());
            assert(t@.fields[t.id as int] == t.fields@[t.id as int]@);
        }
        let nid: i64 = if t.fields[t.id].default {
            self.fresh_id()
        } else {
            let pos = insertable_pos(t, t.id);
            proof {
                assert(t@.fields.take(t@.id + 1).drop_last() =~= t@.fields.take(t@.id));
                assert(t@.fields.take(t@.id + 1).last() == t@.fields[t@.id]);
                lemma_insertable_take_len(t@.fields, t@.id + 1);
                assert(spec_insertable_idx(t@.fields.take(t@.id + 1)).len() == pos + 1);
                assert(supplied.deep_view()[pos as int] == supplied@[pos as int]@);
            }
            match &supplied[pos] {
                Value::Int(v) => *v,
                _ => {
                    proof {
                        assert(false);
                    }
                    0
                },
            }
        };
        let row = compose_row(t, supplied, &self.defaults, nid);
        self.ids.push(nid);
        self.rows.push(row);
        proof {
            let ghost olds = old(self)@;
            let ghost composed = spec_compose_row(
                t@,
                supplied.deep_view(),
                olds.defaults,
                nid as int,
            );
            assert(self@.ids =~= olds.ids.push(nid as int));
            assert(self@.rows =~= olds.rows.push(composed));
            assert(self@.defaults =~= olds.defaults);
            lemma_find_none_conv(olds.ids, nid as int);
            assert(store_wf(self@, t@)) by {
                let s2 = self@;
                let k = olds.rows.len() as int;
                assert forall|p: int| 0 <= p < s2.rows.len() implies (#[trigger] s2.rows[p]).len()
                    == t@.fields.len() && s2.rows[p][t@.id] == ValueV::Int(s2.ids[p]) by {
                    if p < k {
                        assert(s2.rows[p] == olds.rows[p]);
                        assert(s2.ids[p] == olds.ids[p]);
                    } else {
                        assert(s2.rows[p] == composed);
                        assert(s2.ids[p] == nid as int);
                    }
                }
                assert forall|p: int, q: int| 0 <= p < q < s2.ids.len() implies s2.ids[p]
                    != s2.ids[q] by {
                    if q < k {
                        assert(s2.ids[p] == olds.ids[p] && s2.ids[q] == olds.ids[q]);
                    } else {
                        assert(s2.ids[p] == olds.ids[p] && s2.ids[q] == nid as int);
                    }
                }
            }
        }
        nid
    }

    /// The executed fetch of chosen columns of the row keyed `id`, in
    /// the given column order; `RowNotFound` when no row has that key.
    pub fn exec_fetch_columns(&self, t: &Table, cols: &Vec<usize>, id: i64) -> (r: Result<
        Vec<Value>,
        DbError,
    >)
        requires
            store_wf(self@, t@),
            forall|k: int| 0 <= k < cols@.len() ==> (#[trigger] cols@[k]) < t@.fields.len(),
        ensures
            r is Ok <==> spec_find(self@.ids, id as int) is Some,
            r matches Ok(vals) ==> (match spec_find(self@.ids, id as int) {
                Some(i) => vals.deep_view().len() == cols@.len() && (forall|k: int|
                    0 <= k < cols@.len() ==> vals.deep_view()[k] == self@.rows[i][(
                    #[trigger] cols@[k]) as int]),
                None => false,
            }),
            r matches Err(e) ==> e == DbError::RowNotFound,
    {
        match self.find(id) {
            Some(i) => {
                proof {
                    lemma_find_index(self@.ids, id as int);
                    assert(self@.rows.len() == self.rows@.len());
                    assert(self@.rows[i as int] == self.rows@[i as int].deep_view());
                }
                let n = cols.len();
                let mut vals: Vec<Value> = Vec::new();
                let mut k: usize = 0;
                while k < n
                    invariant
                        k <= n,
                        n == cols@.len(),
                        i < self.rows@.len(),
                        self@.rows[i as int] == self.rows@[i as int].deep_view(),
                        self@.rows[i as int].len() == t@.fields.len(),
                        forall|j: int|
                            0 <= j < cols@.len() ==> (#[trigger] cols@[j]) < t@.fields.len(),
                        vals@.len() == k,
                        forall|j: int|
                            0 <= j < k ==> (#[trigger] vals@[j])@ == self@.rows[i as int][cols@[j]
                                as int],
                    decreases n - k,
                {
                    proof {
                        assert(self@.rows[i as int][cols@[k as int] as int] == self.rows@[i as int]@[
                        cols@[k as int] as int]@);
                    }
                    vals.push(self.rows[i][cols[k]].clone());
                    k = k + 1;
                }
                proof {
                    assert(vals.deep_view().len() == cols@.len());
                }
                Ok(vals)
            },
            None => Err(DbError::RowNotFound),
        }
    }
}

/// The insert flow of a returning-capable dialect: one statement both
/// stores the row and hands every database-generated column back, and
/// the returned entity is assembled from the caller-supplied values and
/// that returned row alone. The assembled entity equals the stored row:
/// fetching it back by its identifier yields an equal value.
pub fn insert_returning(store: &mut RowStore, t: &Table, supplied: &Vec<Value>) -> (entity: Vec<
    Value,
>)
    requires
        t@.wf(),
        store_wf(old(store)@, t@),
        supplied.deep_view().len() == spec_insertable_idx(t@.fields).len(),
        forall|i: int|
            0 <= i < old(store)@.ids.len() ==> (#[trigger] old(store)@.ids[i]) < i64::MAX,
        !t@.fields[t@.id].default ==> supplied.deep_view()[spec_insert_pos(
            t@.fields,
            t@.id,
        )] is Int && spec_find(
            old(store)@.ids,
            val_int(supplied.deep_view()[spec_insert_pos(t@.fields, t@.id)]),
        ) is None,
    ensures
        store_wf(final(store)@, t@),
        entity.deep_view() == spec_compose_row(
            t@,
            supplied.deep_view(),
            old(store)@.defaults,
            spec_new_id(old(store)@, t@, supplied.deep_view()),
        ),
        final(store)@.ids == old(store)@.ids.push(
            spec_new_id(old(store)@, t@, supplied.deep_view()),
        ),
        final(store)@.rows == old(store)@.rows.push(entity.deep_view()),
        final(store)@.defaults == old(store)@.defaults,
        spec_get(final(store)@, spec_new_id(old(store)@, t@, supplied.deep_view())) == Some(
            entity.deep_view(),
        ),
{
    let nid = store.exec_insert(t, supplied);
    let ghost olds = old(store)@;
    let ghost composed = spec_compose_row(
        t@,
        supplied.deep_view(),
        olds.defaults,
        nid as int,
    );
    let nf0 = t.fields.len();
    let didx = t.default_fields();
    proof {
        assert(t@.fields.len() == nf0 as int);
        crate::backend::common::lemma_default_idx_props(t@.fields);
        lemma_find_push(olds.ids, nid as int);
    }
    let fetched = match store.exec_fetch_columns(t, &didx, nid) {
        Ok(v) => v,
        Err(_) => {
            proof {
                assert(false);
            }
            Vec::new()
        },
    };
    // Assemble the entity: generated columns from the returned row,
    // the rest from the caller's own values.
    let n = t.fields.len();
    let mut entity: Vec<Value> = Vec::new();
    let mut pos: usize = 0;
    let mut dpos: usize = 0;
    proof {
        assert(t@.fields.take(0) =~= Seq::<crate::table::FieldV>::empty());
        assert(t.fields@.len() == t@.fields.len());
        assert(store@.rows[olds.rows.len() as int] == composed);
    }
    let mut c: usize = 0;
    while c < n
        invariant
            c <= n,
            n == t.fields@.len(),
            n == t@.fields.len(),
            t@.wf(),
            t@.fields == t.fields@.map_values(|f: TableField| f@),
            supplied@.len() == spec_insertable_idx(t@.fields).len(),
            didx@ == crate::table::spec_default_idx(t@.fields),
            fetched.deep_view().len() == didx@.len(),
            forall|k: int|
                0 <= k < didx@.len() ==> #[trigger] fetched.deep_view()[k] == composed[didx@[k]
                    as int],
            composed == spec_compose_row(
                t@,
                supplied.deep_view(),
                olds.defaults,
                nid as int,
            ),
            composed.len() == t@.fields.len(),
            !t@.fields[t@.id].default ==> (supplied.deep_view()[spec_insert_pos(
                t@.fields,
                t@.id,
            )] is Int && val_int(
                supplied.deep_view()[spec_insert_pos(t@.fields, t@.id)],
            ) == nid as int),
            pos as int == spec_insertable_idx(t@.fields.take(c as int)).len(),
            pos <= c,
            dpos as int == crate::table::spec_default_idx(t@.fields.take(c as int)).len(),
            dpos <= c,
            entity@.len() == c,
            forall|j: int| 0 <= j < c ==> (#[trigger] entity@[j])@ == composed[j],
        decreases n - c,
    {
        proof {
            assert(t@.fields.take(c + 1).drop_last() =~= t@.fields.take(c as int));
            assert(t@.fields.take(c + 1).last() == t@.fields[c as int]);
            assert(t@.fields[c as int] == t.fields@[c as int]@);
            lemma_insertable_take_len(t@.fields, c + 1);
            lemma_default_idx_prefix(t@.fields, c as int);
            lemma_default_idx_prefix(t@.fields, c + 1);
        }
        let v: Value = if t.fields[c].default {
            proof {
                assert(crate::table::spec_default_idx(t@.fields.take(c + 1)).len() == dpos + 1);
                assert(crate::table::spec_default_idx(t@.fields.take(c + 1))[dpos as int]
                    == c as usize);
                assert(crate::table::spec_default_idx(t@.fields.take(c + 1))
                    == crate::table::spec_default_idx(t@.fields).take(dpos + 1));
                assert(crate::table::spec_default_idx(t@.fields).take(dpos + 1)[dpos as int]
                    == crate::table::spec_default_idx(t@.fields)[dpos as int]);
                assert(crate::table::spec_default_idx(t@.fields)[dpos as int] == c as usize);
                assert(fetched.deep_view()[dpos as int] == composed[c as int]);
                assert(fetched.deep_view()[dpos as int] == fetched@[dpos as int]@);
            }
            fetched[dpos].clone()
        } else {
            proof {
                assert(spec_insertable_idx(t@.fields.take(c + 1)).len() == pos + 1);
                if c == t.id {
                    assert(supplied.deep_view()[pos as int] is Int);
                    assert(val_int(supplied.deep_view()[pos as int]) == nid as int);
                    assert(supplied.deep_view()[pos as int] == ValueV::Int(nid as int));
                    assert(composed[c as int] == ValueV::Int(nid as int));
                } else {
                    assert(composed[c as int] == supplied.deep_view()[pos as int]);
                }
                assert(supplied.deep_view()[pos as int] == supplied@[pos as int]@);
            }
            supplied[pos].clone()
        };
        proof {
            assert(v@ == composed[c as int]);
        }
        entity.push(v);
        if t.fields[c].default {
            dpos = dpos + 1;
        } else {
            pos = pos + 1;
        }
        c = c + 1;
    }
    proof {
        assert(entity.deep_view() =~= composed);
    }
    entity
}

/// The insert flow of a dialect without a returning clause: the insert,
/// the identifier query, and the fetch-back of the other generated
/// columns run as one unit of work, and the returned entity is
/// assembled from the caller-supplied values, the obtained identifier,
/// and the fetched-back columns. The assembled entity equals the stored
/// row: fetching it back by its identifier yields an equal value.
pub fn insert_two_step(store: &mut RowStore, t: &Table, supplied: &Vec<Value>) -> (entity: Vec<
    Value,
>)
    requires
        t@.wf(),
        store_wf(old(store)@, t@),
        supplied.deep_view().len() == spec_insertable_idx(t@.fields).len(),
        forall|i: int|
            0 <= i < old(store)@.ids.len() ==> (#[trigger] old(store)@.ids[i]) < i64::MAX,
        !t@.fields[t@.id].default ==> supplied.deep_view()[spec_insert_pos(
            t@.fields,
            t@.id,
        )] is Int && spec_find(
            old(store)@.ids,
            val_int(supplied.deep_view()[spec_insert_pos(t@.fields, t@.id)]),
        ) is None,
    ensures
        store_wf(final(store)@, t@),
        entity.deep_view() == spec_compose_row(
            t@,
            supplied.deep_view(),
            old(store)@.defaults,
            spec_new_id(old(store)@, t@, supplied.deep_view()),
        ),
        final(store)@.ids == old(store)@.ids.push(
            spec_new_id(old(store)@, t@, supplied.deep_view()),
        ),
        final(store)@.rows == old(store)@.rows.push(entity.deep_view()),
        final(store)@.defaults == old(store)@.defaults,
        spec_get(final(store)@, spec_new_id(old(store)@, t@, supplied.deep_view())) == Some(
            entity.deep_view(),
        ),
{
    let nid = store.exec_insert(t, supplied);
    let ghost olds = old(store)@;
    let ghost composed = spec_compose_row(
        t@,
        supplied.deep_view(),
        olds.defaults,
        nid as int,
    );
    let nf0 = t.fields.len();
    let didx = crate::backend::mysql::default_fields_except_id(t);
    proof {
        assert(t@.fields.len() == nf0 as int);
        crate::backend::common::lemma_default_except_idx_props(t@.fields, t@.id);
        lemma_find_push(olds.ids, nid as int);
    }
    let fetched = match store.exec_fetch_columns(t, &didx, nid) {
        Ok(v) => v,
        Err(_) => {
            proof {
                assert(false);
            }
            Vec::new()
        },
    };
    let n = t.fields.len();
    let mut entity: Vec<Value> = Vec::new();
    let mut pos: usize = 0;
    let mut dpos: usize = 0;
    proof {
        assert(t@.fields.take(0) =~= Seq::<crate::table::FieldV>::empty());
        assert(t.fields@.len() == t@.fields.len());
        assert(store@.rows[olds.rows.len() as int] == composed);
    }
    let mut c: usize = 0;
    while c < n
        invariant
            c <= n,
            n == t.fields@.len(),
            n == t@.fields.len(),
            t@.wf(),
            t@.fields == t.fields@.map_values(|f: TableField| f@),
            supplied@.len() == spec_insertable_idx(t@.fields).len(),
            didx@ == crate::table::spec_default_except_idx(t@.fields, t@.id),
            fetched.deep_view().len() == didx@.len(),
            forall|k: int|
                0 <= k < didx@.len() ==> #[trigger] fetched.deep_view()[k] == composed[didx@[k]
                    as int],
            composed == spec_compose_row(
                t@,
                supplied.deep_view(),
                olds.defaults,
                nid as int,
            ),
            composed.len() == t@.fields.len(),
            pos as int == spec_insertable_idx(t@.fields.take(c as int)).len(),
            pos <= c,
            dpos as int == crate::table::spec_default_except_idx(
                t@.fields.take(c as int),
                t@.id,
            ).len(),
            dpos <= c,
            entity@.len() == c,
            forall|j: int| 0 <= j < c ==> (#[trigger] entity@[j])@ == composed[j],
        decreases n - c,
    {
        proof {
            assert(t@.fields.take(c + 1).drop_last() =~= t@.fields.take(c as int));
            assert(t@.fields.take(c + 1).last() == t@.fields[c as int]);
            assert(t@.fields[c as int] == t.fields@[c as int]@);
            lemma_insertable_take_len(t@.fields, c + 1);
            lemma_default_except_idx_prefix(t@.fields, t@.id, c as int);
            lemma_default_except_idx_prefix(t@.fields, t@.id, c + 1);
        }
        let v: Value = if c == t.id {
            Value::Int(nid)
        } else if t.fields[c].default {
            proof {
                assert(crate::table::spec_default_except_idx(t@.fields.take(c + 1), t@.id).len()
                    == dpos + 1);
                assert(crate::table::spec_default_except_idx(t@.fields.take(c + 1), t@.id)[
                dpos as int] == c as usize);
                assert(crate::table::spec_default_except_idx(t@.fields.take(c + 1), t@.id)
                    == crate::table::spec_default_except_idx(t@.fields, t@.id).take(dpos + 1));
                assert(crate::table::spec_default_except_idx(t@.fields, t@.id).take(dpos + 1)[
                dpos as int] == crate::table::spec_default_except_idx(t@.fields, t@.id)[
                dpos as int]);
                assert(crate::table::spec_default_except_idx(t@.fields, t@.id)[dpos as int]
                    == c as usize);
                assert(fetched.deep_view()[dpos as int] == composed[c as int]);
                assert(fetched.deep_view()[dpos as int] == fetched@[dpos as int]@);
            }
            fetched[dpos].clone()
        } else {
            proof {
                assert(spec_insertable_idx(t@.fields.take(c + 1)).len() == pos + 1);
                assert(composed[c as int] == supplied.deep_view()[pos as int]);
                assert(supplied.deep_view()[pos as int] == supplied@[pos as int]@);
            }
            supplied[pos].clone()
        };
        proof {
            assert(v@ == composed[c as int]);
        }
        entity.push(v);
        if c == t.id {
            if !t.fields[c].default {
                pos = pos + 1;
            }
        } else if t.fields[c].default {
            dpos = dpos + 1;
        } else {
            pos = pos + 1;
        }
        c = c + 1;
    }
    proof {
        assert(entity.deep_view() =~= composed);
    }
    entity
}

/// The setter flow: persists the single-column update scoped to the
/// entity's identifier, then assigns the field in memory. When the
/// entity mirrored its persisted row before the call, it still does
/// after it: fetching the row back yields the updated entity, its set
/// field holding the new value and every other field unchanged.
///
/// The set column may not be the identifier itself: the model keys
/// rows by it, so a key-changing setter is outside the model.
pub fn set_field(
    entity: &mut Vec<Value>,
    store: &mut RowStore,
    t: &Table,
    col: usize,
    v: Value,
) -> (r: Result<(), DbError>)
    requires
        t@.wf(),
        store_wf(old(store)@, t@),
        row_wf(old(entity).deep_view(), t@),
        col < t@.fields.len(),
        col != t@.id,
    ensures
        r is Ok,
        store_wf(final(store)@, t@),
        final(entity).deep_view() == old(entity).deep_view().update(col as int, v@),
        final(store)@.ids == old(store)@.ids,
        final(store)@.defaults == old(store)@.defaults,
        (match spec_find(old(store)@.ids, val_int(old(entity).deep_view()[t@.id])) {
            Some(i) => final(store)@.rows == old(store)@.rows.update(
                i,
                old(store)@.rows[i].update(col as int, v@),
            ),
            None => final(store)@.rows == old(store)@.rows,
        }),
        spec_get(old(store)@, val_int(old(entity).deep_view()[t@.id])) == Some(
            old(entity).deep_view(),
        ) ==> spec_get(final(store)@, val_int(old(entity).deep_view()[t@.id])) == Some(
            final(entity).deep_view(),
        ),
{
    proof {
        assert(entity.deep_view()[t@.id] == entity@[t.id as int]@);
    }
    let id: i64 = match &entity[t.id] {
        Value::Int(x) => *x,
        _ => {
            proof {
                assert(false);
            }
            0
        },
    };
    let persist = store.exec_update_column(t, id, col, &v);
    let r = apply_set_outcome(entity, col, v, persist);
    proof {
        let ghost gid = val_int(old(entity).deep_view()[t@.id]);
        lemma_find_index(old(store)@.ids, gid);
        if spec_get(old(store)@, gid) == Some(old(entity).deep_view()) {
            assert(spec_find(final(store)@.ids, gid) == spec_find(old(store)@.ids, gid));
        }
    }
    r
}

/// The patch flow: persists the partial update covering exactly the
/// patch's declared columns, then merges the same values into the
/// in-memory entity — never before the write. When the entity mirrored
/// its persisted row before the call, it still does after it.
pub fn patch(
    entity: &mut Vec<Value>,
    store: &mut RowStore,
    t: &Table,
    cols: &Vec<usize>,
    vals: &Vec<Value>,
) -> (r: Result<(), DbError>)
    requires
        t@.wf(),
        store_wf(old(store)@, t@),
        row_wf(old(entity).deep_view(), t@),
        cols@.len() == vals@.len(),
        forall|k: int|
            0 <= k < cols@.len() ==> (#[trigger] cols@[k]) < t@.fields.len() && cols@[k] != t@.id,
    ensures
        r is Ok,
        store_wf(final(store)@, t@),
        final(entity).deep_view() == spec_apply_cols(
            old(entity).deep_view(),
            cols@,
            vals.deep_view(),
        ),
        final(store)@.ids == old(store)@.ids,
        final(store)@.defaults == old(store)@.defaults,
        (match spec_find(old(store)@.ids, val_int(old(entity).deep_view()[t@.id])) {
            Some(i) => final(store)@.rows == old(store)@.rows.update(
                i,
                spec_apply_cols(old(store)@.rows[i], cols@, vals.deep_view()),
            ),
            None => final(store)@.rows == old(store)@.rows,
        }),
        spec_get(old(store)@, val_int(old(entity).deep_view()[t@.id])) == Some(
            old(entity).deep_view(),
        ) ==> spec_get(final(store)@, val_int(old(entity).deep_view()[t@.id])) == Some(
            final(entity).deep_view(),
        ),
{
    proof {
        assert(entity.deep_view()[t@.id] == entity@[t.id as int]@);
    }
    let id: i64 = match &entity[t.id] {
        Value::Int(x) => *x,
        _ => {
            proof {
                assert(false);
            }
            0
        },
    };
    let persist = store.exec_patch_row(t, id, cols, vals);
    let r = apply_patch_outcome(entity, cols, vals, persist);
    proof {
        let ghost gid = val_int(old(entity).deep_view()[t@.id]);
        lemma_find_index(old(store)@.ids, gid);
        if spec_get(old(store)@, gid) == Some(old(entity).deep_view()) {
            assert(spec_find(final(store)@.ids, gid) == spec_find(old(store)@.ids, gid));
        }
    }
    r
}

/// Whether two stored values are equal.
fn value_eq(a: &Value, b: &Value) -> (r: bool)
    ensures
        r == (a@ == b@),
{
    match (a, b) {
        (Value::Null, Value::Null) => true,
        (Value::Int(x), Value::Int(y)) => *x == *y,
        (Value::Text(x), Value::Text(y)) => *x == *y,
        (Value::Flag(x), Value::Flag(y)) => *x == *y,
        _ => false,
    }
}

/// The rows whose column `col` holds `v`, in insertion order.
pub open spec fn spec_filter_col(rows: Seq<Seq<ValueV>>, col: int, v: ValueV) -> Seq<Seq<ValueV>>
    decreases rows.len(),
{
    if rows.len() == 0 {
        Seq::empty()
    } else {
        spec_filter_col(rows.drop_last(), col, v)
            + if rows.last()[col] == v {
                seq![rows.last()]
            } else {
                Seq::empty()
            }
    }
}

/// Whether `v` occurs in `vals`.
pub open spec fn spec_val_in(vals: Seq<ValueV>, v: ValueV) -> bool {
    exists|k: int| 0 <= k < vals.len() && vals[k] == v
}

/// The rows whose column `col` holds any of `vals`, in insertion order.
pub open spec fn spec_filter_any(rows: Seq<Seq<ValueV>>, col: int, vals: Seq<ValueV>) -> Seq<
    Seq<ValueV>,
>
    decreases rows.len(),
{
    if rows.len() == 0 {
        Seq::empty()
    } else {
        spec_filter_any(rows.drop_last(), col, vals)
            + if spec_val_in(vals, rows.last()[col]) {
                seq![rows.last()]
            } else {
                Seq::empty()
            }
    }
}

/// Decides whether `v` occurs in `vals`.
fn contains_value(vals: &Vec<Value>, v: &Value) -> (r: bool)
    ensures
        r == spec_val_in(vals.deep_view(), v@),
{
    let n = vals.len();
    let mut i: usize = 0;
    while i < n
        invariant
            i <= n,
            n == vals@.len(),
            forall|j: int| 0 <= j < i ==> vals.deep_view()[j] != v@,
        decreases n - i,
    {
        proof {
            assert(vals.deep_view()[i as int] == vals@[i as int]@);
        }
        if value_eq(&vals[i], v) {
            proof {
                assert(spec_val_in(vals.deep_view(), v@));
            }
            return true;
        }
        i = i + 1;
    }
    proof {
        assert(!spec_val_in(vals.deep_view(), v@));
    }
    false
}

impl RowStore {
    /// The executed zero-or-more-rows lookup: every row whose column
    /// `col` holds `v`, in insertion order.
    pub fn exec_get_many(&self, t: &Table, col: usize, v: &Value) -> (r: Vec<Vec<Value>>)
        requires
            store_wf(self@, t@),
            col < t@.fields.len(),
        ensures
            r.deep_view() == spec_filter_col(self@.rows, col as int, v@),
    {
        let n = self.rows.len();
        let mut r: Vec<Vec<Value>> = Vec::new();
        proof {
            assert(self@.rows.take(0) =~= Seq::<Seq<ValueV>>::empty());
        }
        let mut i: usize = 0;
        while i < n
            invariant
                i <= n,
                n == self.rows@.len(),
                self@.rows == self.rows.deep_view(),
                self@.rows.len() == n as int,
                col < t@.fields.len(),
                forall|j: int|
                    0 <= j < self@.rows.len() ==> (#[trigger] self@.rows[j]).len()
                        == t@.fields.len(),
                r.deep_view() == spec_filter_col(self@.rows.take(i as int), col as int, v@),
            decreases n - i,
        {
            proof {
                assert(self@.rows.take(i + 1).drop_last() =~= self@.rows.take(i as int));
                assert(self@.rows.take(i + 1).last() == self@.rows[i as int]);
                assert(self@.rows[i as int] == self.rows@[i as int].deep_view());
                assert(self@.rows[i as int][col as int] == self.rows@[i as int]@[col as int]@);
            }
            let ghost before = r.deep_view();
            if value_eq(&self.rows[i][col], v) {
                r.push(clone_row(&self.rows[i]));
                proof {
                    assert(r.deep_view() =~= before + seq![self@.rows[i as int]]);
                }
            }
            proof {
                assert(r.deep_view() =~= spec_filter_col(
                    self@.rows.take(i + 1),
                    col as int,
                    v@,
                ));
            }
            i = i + 1;
        }
        proof {
            assert(self@.rows.take(n as int) =~= self@.rows);
        }
        r
    }

    /// The executed zero-or-one-row lookup: the first row whose column
    /// `col` holds `v`, if any.
    pub fn exec_get_optional(&self, t: &Table, col: usize, v: &Value) -> (r: Option<Vec<Value>>)
        requires
            store_wf(self@, t@),
            col < t@.fields.len(),
        ensures
            r is Some <==> spec_filter_col(self@.rows, col as int, v@).len() > 0,
            r matches Some(row) ==> row.deep_view() == spec_filter_col(
                self@.rows,
                col as int,
                v@,
            )[0],
    {
        let mut all = self.exec_get_many(t, col, v);
        if all.len() > 0 {
            let row = all.remove(0);
            proof {
                assert(row.deep_view() == spec_filter_col(self@.rows, col as int, v@)[0]);
            }
            Some(row)
        } else {
            None
        }
    }

    /// The executed exactly-one-row lookup: succeeds when exactly one
    /// row's column `col` holds `v`, and fails when zero or more than
    /// one do. Both failing cardinalities report the missing-unique-row
    /// condition as `RowNotFound`.
    pub fn exec_get_one(&self, t: &Table, col: usize, v: &Value) -> (r: Result<Vec<Value>, DbError>)
        requires
            store_wf(self@, t@),
            col < t@.fields.len(),
        ensures
            r is Ok <==> spec_filter_col(self@.rows, col as int, v@).len() == 1,
            r matches Ok(row) ==> row.deep_view() == spec_filter_col(
                self@.rows,
                col as int,
                v@,
            )[0],
            r matches Err(e) ==> e == DbError::RowNotFound,
    {
        let mut all = self.exec_get_many(t, col, v);
        if all.len() == 1 {
            let row = all.remove(0);
            proof {
                assert(row.deep_view() == spec_filter_col(self@.rows, col as int, v@)[0]);
            }
            Ok(row)
        } else {
            Err(DbError::RowNotFound)
        }
    }

    /// The executed set-membership lookup: every row whose column `col`
    /// holds any of `vals`, in insertion order.
    pub fn exec_get_by_any(&self, t: &Table, col: usize, vals: &Vec<Value>) -> (r: Vec<Vec<Value>>)
        requires
            store_wf(self@, t@),
            col < t@.fields.len(),
        ensures
            r.deep_view() == spec_filter_any(self@.rows, col as int, vals.deep_view()),
    {
        let n = self.rows.len();
        let mut r: Vec<Vec<Value>> = Vec::new();
        proof {
            assert(self@.rows.take(0) =~= Seq::<Seq<ValueV>>::empty());
        }
        let mut i: usize = 0;
        while i < n
            invariant
                i <= n,
                n == self.rows@.len(),
                self@.rows == self.rows.deep_view(),
                self@.rows.len() == n as int,
                col < t@.fields.len(),
                forall|j: int|
                    0 <= j < self@.rows.len() ==> (#[trigger] self@.rows[j]).len()
                        == t@.fields.len(),
                r.deep_view() == spec_filter_any(
                    self@.rows.take(i as int),
                    col as int,
                    vals.deep_view(),
                ),
            decreases n - i,
        {
            proof {
                assert(self@.rows.take(i + 1).drop_last() =~= self@.rows.take(i as int));
                assert(self@.rows.take(i + 1).last() == self@.rows[i as int]);
                assert(self@.rows[i as int] == self.rows@[i as int].deep_view());
                assert(self@.rows[i as int][col as int] == self.rows@[i as int]@[col as int]@);
            }
            let ghost before = r.deep_view();
            if contains_value(vals, &self.rows[i][col]) {
                r.push(clone_row(&self.rows[i]));
                proof {
                    assert(r.deep_view() =~= before + seq![self@.rows[i as int]]);
                }
            }
            proof {
                assert(r.deep_view() =~= spec_filter_any(
                    self@.rows.take(i + 1),
                    col as int,
                    vals.deep_view(),
                ));
            }
            i = i + 1;
        }
        proof {
            assert(self@.rows.take(n as int) =~= self@.rows);
        }
        r
    }
}

/// The values of the row at the indices in `idx`, in order.
pub open spec fn spec_values_at(row: Seq<ValueV>, idx: Seq<usize>) -> Seq<ValueV> {
    idx.map_values(|i: usize| row[i as int])
}

/// Projects a full entity onto the insert helper's shape: the values of
/// the insertable fields, in declaration order.
pub fn insert_values_of(t: &Table, entity: &Vec<Value>) -> (r: Vec<Value>)
    requires
        t@.wf(),
        entity.deep_view().len() == t@.fields.len(),
    ensures
        r.deep_view() == spec_values_at(entity.deep_view(), spec_insertable_idx(t@.fields)),
{
    let nf = t.fields.len();
    proof {
        assert(t@.fields.len() == nf as int);
        crate::backend::common::lemma_insertable_idx_props(t@.fields);
    }
    let idx = t.insertable_fields();
    let n = idx.len();
    let mut r: Vec<Value> = Vec::new();
    let mut k: usize = 0;
    while k < n
        invariant
            k <= n,
            n == idx@.len(),
            idx@ == spec_insertable_idx(t@.fields),
            entity@.len() == t@.fields.len(),
            forall|j: int| 0 <= j < idx@.len() ==> #[trigger] idx@[j] < t@.fields.len(),
            r@.len() == k,
            forall|j: int|
                0 <= j < k ==> (#[trigger] r@[j])@ == entity.deep_view()[idx@[j] as int],
        decreases n - k,
    {
        let i = idx[k];
        proof {
            assert(entity.deep_view()[i as int] == entity@[i as int]@);
        }
        r.push(entity[i].clone());
        k = k + 1;
    }
    proof {
        assert(spec_values_at(entity.deep_view(), spec_insertable_idx(t@.fields)).len()
            == n as int);
        assert(r.deep_view() =~= spec_values_at(
            entity.deep_view(),
            spec_insertable_idx(t@.fields),
        ));
    }
    r
}

/// The reload flow: replaces the in-memory entity with the row the
/// store holds under the entity's own identifier. When no such row
/// exists the entity is left untouched and the missing row is reported.
pub fn reload(entity: &mut Vec<Value>, store: &RowStore, t: &Table) -> (r: Result<(), DbError>)
    requires
        t@.wf(),
        store_wf(store@, t@),
        row_wf(old(entity).deep_view(), t@),
    ensures
        (match spec_get(store@, val_int(old(entity).deep_view()[t@.id])) {
            Some(row) => r is Ok && final(entity).deep_view() == row,
            None => r == Err::<(), DbError>(DbError::RowNotFound) && *final(entity) == *old(
                entity,
            ),
        }),
{
    proof {
        assert(entity.deep_view()[t@.id] == entity@[t.id as int]@);
    }
    let id: i64 = match &entity[t.id] {
        Value::Int(x) => *x,
        _ => {
            proof {
                assert(false);
            }
            0
        },
    };
    match store.exec_get(t, id) {
        Ok(row) => {
            *entity = row;
            Ok(())
        },
        Err(_) => Err(DbError::RowNotFound),
    }
}

} // verus!
